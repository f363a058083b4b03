//! The table of open sessions and the one that is selected.

use vstd::prelude::*;
use vstd::string::StringExecFns;
use crate::text::text_eq;

verus! {

/// The mathematical form of the session table.
pub struct Sessions {
    /// The names of the open sessions, in the order in which they were opened.
    pub open: Seq<Seq<char>>,
    /// The name of the selected session, if one is selected.
    pub selected: Option<Seq<char>>,
}

/// No name is open twice, and the selected name is open.
pub open spec fn valid(s: Sessions) -> bool {
    &&& s.open.no_duplicates()
    &&& s.selected matches Some(name) ==> s.open.contains(name)
}

/// The mathematical form of a session failure.
pub enum SessionErrorView {
    AlreadyConnected(Seq<char>),
    NotFound(Seq<char>),
    ConnectTimeout,
    AuthError(Seq<char>),
    NetworkError(Seq<char>),
}

/// Why a session could not be opened, selected or closed.
#[derive(Debug, Clone, PartialEq, Eq)]
pub enum SessionError {
    /// A session of this name is open already.
    AlreadyConnected(String),
    /// No session of this name is open.
    NotFound(String),
    /// The connection was not established in time.
    ConnectTimeout,
    /// The store refused the credentials; the text is the transport's own.
    AuthError(String),
    /// The store could not be reached; the text is the transport's own.
    NetworkError(String),
}

impl DeepView for SessionError {
    type V = SessionErrorView;

    open spec fn deep_view(&self) -> SessionErrorView {
        match *self {
            SessionError::AlreadyConnected(name) => SessionErrorView::AlreadyConnected(name@),
            SessionError::NotFound(name) => SessionErrorView::NotFound(name@),
            SessionError::ConnectTimeout => SessionErrorView::ConnectTimeout,
            SessionError::AuthError(text) => SessionErrorView::AuthError(text@),
            SessionError::NetworkError(text) => SessionErrorView::NetworkError(text@),
        }
    }
}

impl View for SessionError {
    type V = SessionErrorView;

    open spec fn view(&self) -> SessionErrorView {
        self.deep_view()
    }
}

/// The text shown for a session failure.
pub open spec fn session_error_text(error: SessionErrorView) -> Seq<char> {
    match error {
        SessionErrorView::AlreadyConnected(name) => "Connection '"@ + name
            + "' already connected."@,
        SessionErrorView::NotFound(name) => "Connection '"@ + name + "' is not connected."@,
        SessionErrorView::ConnectTimeout => "Failed to connect to Redis: timed out"@,
        SessionErrorView::AuthError(text) => "Failed to connect to Redis: "@ + text,
        SessionErrorView::NetworkError(text) => "Failed to connect to Redis: "@ + text,
    }
}

impl SessionError {
    /// The text shown for the failure.
    pub fn message(&self) -> (r: String)
        ensures
            r@ == session_error_text(self@),
    {
        match self {
            SessionError::AlreadyConnected(name) => {
                let mut r = String::from_str("Connection '");
                r.append(name.as_str());
                r.append("' already connected.");
                r
            },
            SessionError::NotFound(name) => {
                let mut r = String::from_str("Connection '");
                r.append(name.as_str());
                r.append("' is not connected.");
                r
            },
            SessionError::ConnectTimeout => String::from_str(
                "Failed to connect to Redis: timed out",
            ),
            SessionError::AuthError(text) => {
                let mut r = String::from_str("Failed to connect to Redis: ");
                r.append(text.as_str());
                r
            },
            SessionError::NetworkError(text) => {
                let mut r = String::from_str("Failed to connect to Redis: ");
                r.append(text.as_str());
                r
            },
        }
    }
}

/// The open sessions, by profile name, and the selected one. Every data
/// operation goes to the selected session.
pub struct AppState {
    connected_clients: Vec<String>,
    selected_client: Option<String>,
}

impl View for AppState {
    type V = Sessions;

    closed spec fn view(&self) -> Sessions {
        Sessions {
            open: self.connected_clients.deep_view(),
            selected: match self.selected_client {
                Some(name) => Some(name@),
                None => None,
            },
        }
    }
}

impl AppState {
    /// What holds of every session table.
    #[verifier::type_invariant]
    pub open spec fn well_formed(&self) -> bool {
        valid(self@)
    }

    /// A table without sessions.
    pub fn new() -> (r: AppState)
        ensures
            r@ == (Sessions { open: Seq::empty(), selected: None }),
            valid(r@),
    {
        let r = AppState { connected_clients: Vec::new(), selected_client: None };
        assert(r.connected_clients.deep_view() =~= Seq::<Seq<char>>::empty());
        r
    }

    /// The place of `name` among the open sessions, or their number.
    fn find(&self, name: &str) -> (i: usize)
        ensures
            i <= self@.open.len(),
            i < self@.open.len() ==> self@.open[i as int] == name@,
            i == self@.open.len() ==> !self@.open.contains(name@),
    {
        let n: usize = self.connected_clients.len();
        let mut i: usize = 0;
        while i < n
            invariant
                n == self.connected_clients.len(),
                i <= n,
                forall|j: int| 0 <= j < i ==> self.connected_clients.deep_view()[j] != name@,
            decreases n - i,
        {
            if text_eq(self.connected_clients[i].as_str(), name) {
                return i;
            }
            i = i + 1;
        }
        n
    }

    /// Whether a session of this name is open.
    pub fn is_connected(&self, name: &str) -> (r: bool)
        ensures
            r == self@.open.contains(name@),
    {
        let i = self.find(name);
        i < self.connected_clients.len()
    }

    /// The names of the open sessions, in the order in which they were opened.
    pub fn sessions(&self) -> (r: Vec<String>)
        ensures
            r.deep_view() == self@.open,
            valid(self@),
    {
        proof {
            use_type_invariant(self);
        }
        let n: usize = self.connected_clients.len();
        let mut r: Vec<String> = Vec::new();
        let mut i: usize = 0;
        assert(r.deep_view() =~= self.connected_clients.deep_view().take(0));
        while i < n
            invariant
                n == self.connected_clients.len(),
                i <= n,
                r.deep_view() == self.connected_clients.deep_view().take(i as int),
            decreases n - i,
        {
            let ghost done = r.deep_view();
            r.push(self.connected_clients[i].clone());
            assert(r.deep_view() =~= done.push(self.connected_clients[i as int]@));
            assert(r.deep_view() =~= self.connected_clients.deep_view().take(i + 1));
            i = i + 1;
        }
        assert(r.deep_view() =~= self.connected_clients.deep_view());
        r
    }

    /// The name of the selected session, if one is selected.
    pub fn current(&self) -> (r: Option<String>)
        ensures
            r.deep_view() == self@.selected,
            valid(self@),
    {
        proof {
            use_type_invariant(self);
        }
        match &self.selected_client {
            Some(name) => Some(name.clone()),
            None => None,
        }
    }

    /// Enters a session that was opened under `name` and selects it. Where a
    /// session of that name is open already, nothing changes.
    pub fn connect(&mut self, name: String) -> (r: Result<String, SessionError>)
        ensures
            valid(final(self)@),
            old(self)@.open.contains(name@) ==> final(self)@ == old(self)@ && r is Err
                && r->Err_0@ == SessionErrorView::AlreadyConnected(name@),
            !old(self)@.open.contains(name@) ==> final(self)@ == (Sessions {
                open: old(self)@.open.push(name@),
                selected: Some(name@),
            }) && r is Ok && r->Ok_0@ == name@,
    {
        proof {
            use_type_invariant(&*self);
        }
        if self.is_connected(name.as_str()) {
            return Err(SessionError::AlreadyConnected(name));
        }
        let ghost before = self.connected_clients.deep_view();
        let mut names = self.sessions();
        names.push(name.clone());
        proof {
            assert(names.deep_view() =~= before.push(name@));
            assert(names.deep_view()[before.len() as int] == name@);
            if let Some(selected) = self@.selected {
                let at = before.index_of(selected);
                assert(names.deep_view()[at] == selected);
            }
        }
        self.connected_clients = names;
        self.selected_client = Some(name.clone());
        Ok(name)
    }

    /// Selects the open session of the given name.
    pub fn select(&mut self, name: &str) -> (r: Result<(), SessionError>)
        ensures
            valid(final(self)@),
            old(self)@.open.contains(name@) ==> r is Ok && final(self)@ == (Sessions {
                open: old(self)@.open,
                selected: Some(name@),
            }),
            !old(self)@.open.contains(name@) ==> final(self)@ == old(self)@ && r is Err
                && r->Err_0@ == SessionErrorView::NotFound(name@),
    {
        proof {
            use_type_invariant(&*self);
        }
        let i = self.find(name);
        if i == self.connected_clients.len() {
            return Err(SessionError::NotFound(String::from_str(name)));
        }
        self.selected_client = Some(self.connected_clients[i].clone());
        Ok(())
    }

    /// Closes the session of the given name. Where it was the selected one,
    /// none is selected afterwards.
    pub fn disconnect(&mut self, name: &str) -> (r: Result<(), SessionError>)
        ensures
            valid(final(self)@),
            old(self)@.open.contains(name@) ==> r is Ok && final(self)@ == (Sessions {
                open: old(self)@.open.remove(old(self)@.open.index_of(name@)),
                selected: if old(self)@.selected == Some(name@) {
                    None
                } else {
                    old(self)@.selected
                },
            }),
            !old(self)@.open.contains(name@) ==> final(self)@ == old(self)@ && r is Err
                && r->Err_0@ == SessionErrorView::NotFound(name@),
    {
        proof {
            use_type_invariant(&*self);
        }
        let i = self.find(name);
        if i == self.connected_clients.len() {
            return Err(SessionError::NotFound(String::from_str(name)));
        }
        let ghost before = self.connected_clients.deep_view();
        let selected_here = match &self.selected_client {
            Some(selected) => text_eq(selected.as_str(), name),
            None => false,
        };
        if selected_here {
            self.selected_client = None;
        }
        let mut names = self.sessions();
        names.remove(i);
        proof {
            assert(before.index_of(name@) == i);
            assert(names.deep_view() =~= before.remove(i as int));
            let after = before.remove(i as int);
            assert forall|a: int, b: int| 0 <= a < after.len() && 0 <= b < after.len() && a != b
                implies after[a] != after[b] by {
                let a0 = if a < i { a } else { a + 1 };
                let b0 = if b < i { b } else { b + 1 };
                assert(after[a] == before[a0]);
                assert(after[b] == before[b0]);
            }
            if self@.selected is Some {
                let selected = self@.selected->0;
                let at = before.index_of(selected);
                assert(before[at] == selected);
                let to = if at < i { at } else { at - 1 };
                assert(after[to] == selected);
            }
        }
        self.connected_clients = names;
        Ok(())
    }
}

} // verus!
