//! The registry seen from outside: which ids are registered, and what each of
//! the four requests does to that set.
//!
//! The operations of the manager state their effect on the registered ids
//! through `ids_after` and `no_op`; the laws of the library are proved over
//! the same two functions.

use vstd::prelude::*;

verus! {

/// The four requests that the manager serves.
#[derive(Clone, Copy, Debug, PartialEq, Eq, Structural)]
pub enum Request {
    Create,
    Write,
    Resize,
    Close,
}

/// One request as it was served: what was asked, for which id, and whether
/// the call succeeded.
pub struct Served {
    pub request: Request,
    pub id: Seq<char>,
    pub ok: bool,
}

/// The ids that are registered once `request` on `id` has been served. Only a
/// create that succeeds adds an id and only a close takes one away; a close
/// does so whatever became of the process.
pub open spec fn ids_after(ids: Set<Seq<char>>, request: Request, id: Seq<char>, ok: bool) -> Set<
    Seq<char>,
> {
    match request {
        Request::Create => if ok {
            ids.insert(id)
        } else {
            ids
        },
        Request::Close => ids.remove(id),
        Request::Write => ids,
        Request::Resize => ids,
    }
}

/// The requests that are settled by the registry alone: a create of an id that
/// is registered, and a write, a resize or a close of one that is not. Such a
/// request succeeds, asks nothing of the system and leaves every session as
/// it is.
pub open spec fn no_op(ids: Set<Seq<char>>, request: Request, id: Seq<char>) -> bool {
    match request {
        Request::Create => ids.contains(id),
        Request::Write => !ids.contains(id),
        Request::Resize => !ids.contains(id),
        Request::Close => !ids.contains(id),
    }
}

/// The ids that are registered once every request of `history` has been
/// served, the first one first, starting from `ids`.
pub open spec fn ids_after_all(ids: Set<Seq<char>>, history: Seq<Served>) -> Set<Seq<char>>
    decreases history.len(),
{
    if history.len() == 0 {
        ids
    } else {
        let last = history.last();
        ids_after(ids_after_all(ids, history.drop_last()), last.request, last.id, last.ok)
    }
}

/// Whether some request of `history` was a create of `id`.
pub open spec fn creates(history: Seq<Served>, id: Seq<char>) -> bool {
    exists|i: int|
        0 <= i < history.len() && (#[trigger] history[i]).request == Request::Create && history[i].id
            == id
}

/// The history in which each id of `ids` is created in turn, with success.
pub open spec fn created_in_turn(ids: Seq<Seq<char>>) -> Seq<Served> {
    Seq::new(ids.len(), |i: int| Served { request: Request::Create, id: ids[i], ok: true })
}

} // verus!
