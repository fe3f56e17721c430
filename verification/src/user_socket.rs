//! Who may listen on the socket of a user.

use vstd::prelude::*;

verus! {

/// What stands where the socket is to be.
#[derive(Clone, Copy, Debug, PartialEq, Eq, Structural)]
pub struct SocketFile {
    pub is_socket: bool,
    pub owner: u32,
}

/// Why the socket was not taken.
#[derive(Clone, Debug, PartialEq, Eq)]
pub enum SocketRefusal {
    /// Another process holds the lock, which the system said in these words.
    Locked(String),
    /// What stands there is no socket, or not the user's.
    Foreign,
    /// Somebody answers on the socket.
    Live,
}

impl SocketRefusal {
    /// What is said of the refusal.
    pub open spec fn text(self) -> Seq<char> {
        match self {
            SocketRefusal::Locked(error) => "another Tollgate authority owns the app lock: "@
                + error@,
            SocketRefusal::Foreign => "refusing to replace an unowned or non-socket IPC path"@,
            SocketRefusal::Live => "another Tollgate authority is already listening"@,
        }
    }

    /// The refusal in words.
    pub fn message(&self) -> (r: String)
        ensures
            r@ == self.text(),
    {
        match self {
            SocketRefusal::Locked(error) => "another Tollgate authority owns the app lock: ".to_owned().concat(
                error.as_str(),
            ),
            SocketRefusal::Foreign => "refusing to replace an unowned or non-socket IPC path".to_owned(),
            SocketRefusal::Live => "another Tollgate authority is already listening".to_owned(),
        }
    }

    /// Whether the refusal is about rights, not about an address in use.
    pub fn is_denial(&self) -> (r: bool)
        ensures
            r == (self is Foreign),
    {
        match self {
            SocketRefusal::Foreign => true,
            _ => false,
        }
    }
}

/// What is done before listening.
#[derive(Clone, Copy, Debug, PartialEq, Eq, Structural)]
pub enum SocketPlan {
    /// Nothing stands there: listen.
    Bind,
    /// A socket of the user's stands there: see whether somebody answers on it.
    Ask,
}

/// What stands there may be replaced if nobody answers on it.
pub open spec fn may_be_asked(found: Option<SocketFile>, user: u32) -> bool {
    found matches Some(file) ==> file.is_socket && file.owner == user
}

/// Decides what is done about what stands where the socket is to be.
pub fn plan_socket(found: Option<SocketFile>, user: u32) -> (r: Result<SocketPlan, SocketRefusal>)
    ensures
        r is Ok <==> may_be_asked(found, user),
        r matches Ok(plan) ==> plan == if found is None {
            SocketPlan::Bind
        } else {
            SocketPlan::Ask
        },
        r matches Err(refusal) ==> refusal is Foreign,
{
    match found {
        None => Ok(SocketPlan::Bind),
        Some(file) => if file.is_socket && file.owner == user {
            Ok(SocketPlan::Ask)
        } else {
            Err(SocketRefusal::Foreign)
        },
    }
}

/// Judges whether a socket may be replaced on which somebody answered or not.
pub fn check_replacement(answered: bool) -> (r: Result<(), SocketRefusal>)
    ensures
        r is Ok <==> !answered,
        r matches Err(refusal) ==> refusal is Live,
{
    if answered {
        Err(SocketRefusal::Live)
    } else {
        Ok(())
    }
}

/// How an attempt to take the socket ends, from all that is seen on the way.
pub open spec fn refusal_of(
    locked: Option<Seq<char>>,
    found: Option<SocketFile>,
    user: u32,
    answered: bool,
) -> Option<Seq<char>> {
    if locked is Some {
        Some("another Tollgate authority owns the app lock: "@ + locked->Some_0)
    } else if !may_be_asked(found, user) {
        Some(SocketRefusal::Foreign.text())
    } else if found is Some && answered {
        Some(SocketRefusal::Live.text())
    } else {
        None
    }
}

/// Judges an attempt to take the socket by all that was seen on the way.
pub fn bind_user_socket(
    locked: Option<&str>,
    found: Option<SocketFile>,
    user: u32,
    answered: bool,
) -> (r: Result<SocketPlan, SocketRefusal>)
    ensures
        match refusal_of(
            match locked {
                Some(error) => Some(error@),
                None => None,
            },
            found,
            user,
            answered,
        ) {
            Some(text) => r matches Err(refusal) && refusal.text() == text,
            None => r matches Ok(plan) && (plan is Bind <==> found is None),
        },
{
    if let Some(error) = locked {
        return Err(SocketRefusal::Locked(error.to_owned()));
    }
    let plan = match plan_socket(found, user) {
        Ok(plan) => plan,
        Err(refusal) => {
            return Err(refusal);
        },
    };
    match plan {
        SocketPlan::Bind => Ok(plan),
        SocketPlan::Ask => match check_replacement(answered) {
            Ok(()) => Ok(plan),
            Err(refusal) => Err(refusal),
        },
    }
}

/// A live authority is never replaced, nor is what is not a socket of the user's.
pub proof fn law_a_live_authority_is_never_replaced(
    locked: Option<Seq<char>>,
    found: Option<SocketFile>,
    user: u32,
    answered: bool,
)
    ensures
        locked is Some ==> refusal_of(locked, found, user, answered) is Some,
        found is Some && answered ==> refusal_of(locked, found, user, answered) is Some,
        found matches Some(file) ==> (!file.is_socket || file.owner != user ==> refusal_of(
            locked,
            found,
            user,
            answered,
        ) is Some),
        locked is None && found is None ==> refusal_of(locked, found, user, answered) is None,
{
}

} // verus!
