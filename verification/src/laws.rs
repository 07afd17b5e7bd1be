//! What holds of the manager whatever the system does.
//!
//! Each law is stated over the functions through which the operations of the
//! manager state their own effect, so it holds of every run of them.

use vstd::prelude::*;
use crate::manager::opened;
use crate::manager::same_but;
use crate::manager::Session;
use crate::model::created_in_turn;
use crate::model::creates;
use crate::model::ids_after;
use crate::model::ids_after_all;
use crate::model::no_op;
use crate::model::Request;
use crate::model::Served;

verus! {

/// Creating is idempotent: once a session has been opened under `id`, another
/// create of `id` is settled by the registry alone. It succeeds and replaces
/// nothing.
pub proof fn law_create_twice_is_idempotent(
    before: Map<Seq<char>, Session>,
    after: Map<Seq<char>, Session>,
    id: Seq<char>,
)
    requires
        opened(before, after, id),
    ensures
        no_op(after.dom(), Request::Create, id),
        ids_after(after.dom(), Request::Create, id, true) == after.dom(),
{
    assert(after.dom().insert(id) == after.dom());
}

/// A session that was closed is unknown: a write, a resize or another close
/// of its id is settled by the registry alone and succeeds.
pub proof fn law_closed_session_is_unknown(ids: Set<Seq<char>>, id: Seq<char>, ok: bool)
    ensures
        no_op(ids_after(ids, Request::Close, id, ok), Request::Write, id),
        no_op(ids_after(ids, Request::Close, id, ok), Request::Resize, id),
        no_op(ids_after(ids, Request::Close, id, ok), Request::Close, id),
{
}

/// An id that no request ever created is not registered, so a write, a resize
/// or a close of it is settled by the registry alone and succeeds.
pub proof fn law_never_created_is_unknown(history: Seq<Served>, id: Seq<char>)
    requires
        !creates(history, id),
    ensures
        !ids_after_all(Set::empty(), history).contains(id),
        no_op(ids_after_all(Set::empty(), history), Request::Write, id),
        no_op(ids_after_all(Set::empty(), history), Request::Resize, id),
        no_op(ids_after_all(Set::empty(), history), Request::Close, id),
    decreases history.len(),
{
    if history.len() > 0 {
        let earlier = history.drop_last();
        assert(!creates(earlier, id)) by {
            if creates(earlier, id) {
                let i = choose|i: int|
                    0 <= i < earlier.len() && (#[trigger] earlier[i]).request == Request::Create
                        && earlier[i].id == id;
                assert(history[i] == earlier[i]);
            }
        }
        law_never_created_is_unknown(earlier, id);
        let last = history.last();
        assert(history[history.len() - 1] == last);
    }
}

/// A request on one id never registers or unregisters another id.
pub proof fn law_requests_keep_to_their_id(
    ids: Set<Seq<char>>,
    request: Request,
    id: Seq<char>,
    ok: bool,
    other: Seq<char>,
)
    requires
        other != id,
    ensures
        ids_after(ids, request, id, ok).contains(other) == ids.contains(other),
{
}

/// Nothing but a close takes a session out of the registry.
pub proof fn law_only_close_unregisters(
    ids: Set<Seq<char>>,
    request: Request,
    id: Seq<char>,
    ok: bool,
)
    requires
        request != Request::Close,
    ensures
        ids.subset_of(ids_after(ids, request, id, ok)),
{
}

/// Sessions that are created one after the other under ids of their own are
/// all registered afterwards, beside those that were registered before.
pub proof fn law_created_sessions_are_all_registered(start: Set<Seq<char>>, ids: Seq<Seq<char>>)
    ensures
        ids_after_all(start, created_in_turn(ids)) == start.union(ids.to_set()),
    decreases ids.len(),
{
    let history = created_in_turn(ids);
    if ids.len() == 0 {
        assert(start.union(ids.to_set()) == start);
    } else {
        let earlier = ids.drop_last();
        assert(history.drop_last() == created_in_turn(earlier));
        law_created_sessions_are_all_registered(start, earlier);
        let last = history.last();
        assert(last.id == ids.last() && last.request == Request::Create && last.ok);
        assert(start.union(earlier.to_set()).insert(ids.last()) == start.union(ids.to_set())) by {
            let left = start.union(earlier.to_set()).insert(ids.last());
            let right = start.union(ids.to_set());
            assert forall|k: Seq<char>| left.contains(k) <==> right.contains(k) by {
                if earlier.contains(k) {
                    let i = choose|i: int| 0 <= i < earlier.len() && earlier[i] == k;
                    assert(ids[i] == k);
                }
                if ids.contains(k) {
                    let i = choose|i: int| 0 <= i < ids.len() && ids[i] == k;
                    if i < earlier.len() {
                        assert(earlier[i] == k);
                    }
                }
                assert(ids[ids.len() - 1] == ids.last());
            }
            assert(left =~= right);
        }
    }
}

/// A write reaches the session it names and no other: every other session is
/// after the write what it was before.
pub proof fn law_write_touches_one_session(
    before: Map<Seq<char>, Session>,
    after: Map<Seq<char>, Session>,
    id: Seq<char>,
    other: Seq<char>,
)
    requires
        same_but(before, after, id),
        other != id,
    ensures
        after.dom().contains(other) == before.dom().contains(other),
        before.dom().contains(other) ==> after[other] == before[other],
{
}

/// Opening a session leaves every session that was there as it was.
pub proof fn law_create_touches_no_other_session(
    before: Map<Seq<char>, Session>,
    after: Map<Seq<char>, Session>,
    id: Seq<char>,
    other: Seq<char>,
)
    requires
        opened(before, after, id),
        before.dom().contains(other),
    ensures
        after.dom().contains(other),
        after[other] == before[other],
{
}

} // verus!
