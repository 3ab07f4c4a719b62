//! The listener acquisitor: which socket the server listens on.
//!
//! A supervisor may hand the process listening sockets that it opened
//! itself. The caller looks at each descriptor it was handed and says what
//! it is; the choice among them is made here.

use vstd::prelude::*;

verus! {

/// What a descriptor handed down by the supervisor turned out to be.
#[derive(Clone, Copy, Debug, PartialEq, Eq, Structural)]
pub enum Inherited {
    /// A listening socket bound to a filesystem path.
    Unix,
    /// A listening TCP socket.
    Tcp,
    /// Not a listening socket that the server can use.
    Unusable,
}

/// The socket that the server listens on.
#[derive(Clone, Copy, Debug, PartialEq, Eq, Structural)]
pub enum ListenerHandle {
    /// The inherited filesystem-path socket at this position.
    InheritedUnix(usize),
    /// The inherited TCP socket at this position.
    InheritedTcp(usize),
    /// A TCP socket that the server binds itself on the configured address.
    FreshTcp,
}

/// Why no listener could be chosen.
#[derive(Clone, Copy, Debug, PartialEq, Eq, Structural)]
pub enum ListenerError {
    /// Descriptors were handed down, and none of them is a listening socket.
    InvalidDescriptor,
}

/// Whether `i` is the position of the first descriptor of this kind.
pub open spec fn first_at(offered: Seq<Inherited>, kind: Inherited, i: int) -> bool {
    &&& 0 <= i < offered.len()
    &&& offered[i] == kind
    &&& forall|j: int| 0 <= j < i ==> offered[j] != kind
}

/// Whether a descriptor of this kind was handed down.
pub open spec fn offers(offered: Seq<Inherited>, kind: Inherited) -> bool {
    exists|i: int| 0 <= i < offered.len() && offered[i] == kind
}

/// Whether the choice is the right one for what was handed down: the first
/// filesystem-path socket if there is one, else the first TCP socket if there
/// is one, else a fresh socket, which is bound only where nothing at all was
/// handed down.
pub open spec fn is_choice(offered: Seq<Inherited>, r: Result<ListenerHandle, ListenerError>) -> bool {
    if offers(offered, Inherited::Unix) {
        r matches Ok(ListenerHandle::InheritedUnix(i)) && first_at(offered, Inherited::Unix, i as int)
    } else if offers(offered, Inherited::Tcp) {
        r matches Ok(ListenerHandle::InheritedTcp(i)) && first_at(offered, Inherited::Tcp, i as int)
    } else if offered.len() == 0 {
        r == Ok::<ListenerHandle, ListenerError>(ListenerHandle::FreshTcp)
    } else {
        r == Err::<ListenerHandle, ListenerError>(ListenerError::InvalidDescriptor)
    }
}

/// Finds the first descriptor of a kind.
fn find_first(offered: &Vec<Inherited>, kind: Inherited) -> (r: Option<usize>)
    ensures
        match r {
            Some(i) => first_at(offered@, kind, i as int),
            None => !offers(offered@, kind),
        },
{
    let mut i: usize = 0;
    while i < offered.len()
        invariant
            i <= offered@.len(),
            forall|j: int| 0 <= j < i ==> offered@[j] != kind,
        decreases offered@.len() - i,
    {
        if offered[i] == kind {
            return Some(i);
        }
        i += 1;
    }
    None
}

/// Chooses the listener among the descriptors handed down, given in the
/// order the supervisor passed them.
///
/// An inherited socket is always used where there is one, and then no fresh
/// socket is bound; a filesystem-path socket is preferred to a TCP socket.
pub fn select_listener(offered: &Vec<Inherited>) -> (r: Result<ListenerHandle, ListenerError>)
    ensures
        is_choice(offered@, r),
        r == Ok::<ListenerHandle, ListenerError>(ListenerHandle::FreshTcp) <==> offered@.len() == 0,
{
    match find_first(offered, Inherited::Unix) {
        Some(i) => Ok(ListenerHandle::InheritedUnix(i)),
        None => match find_first(offered, Inherited::Tcp) {
            Some(i) => Ok(ListenerHandle::InheritedTcp(i)),
            None => if offered.len() == 0 {
                Ok(ListenerHandle::FreshTcp)
            } else {
                Err(ListenerError::InvalidDescriptor)
            },
        },
    }
}

/// The choice is a function of what was handed down: two choices that are
/// both right are the same.
pub proof fn lemma_choice_unique(
    offered: Seq<Inherited>,
    a: Result<ListenerHandle, ListenerError>,
    b: Result<ListenerHandle, ListenerError>,
)
    requires
        is_choice(offered, a),
        is_choice(offered, b),
    ensures
        a == b,
{
    if offers(offered, Inherited::Unix) {
        let i = a->Ok_0->InheritedUnix_0 as int;
        let j = b->Ok_0->InheritedUnix_0 as int;
        assert(first_at(offered, Inherited::Unix, i));
        assert(first_at(offered, Inherited::Unix, j));
        assert(i == j);
    } else if offers(offered, Inherited::Tcp) {
        let i = a->Ok_0->InheritedTcp_0 as int;
        let j = b->Ok_0->InheritedTcp_0 as int;
        assert(first_at(offered, Inherited::Tcp, i));
        assert(first_at(offered, Inherited::Tcp, j));
        assert(i == j);
    }
}

} // verus!
