//! Registry-wide laws: how the operations' transitions compose. Each proof
//! function states one law over the same spec functions the operations'
//! contracts use.

use vstd::prelude::*;

use crate::records::DestinationView;
use crate::records::UserView;
use crate::registry::RegistryView;
use crate::registry::comment_added;
use crate::registry::comments_of;
use crate::registry::destination_created;
use crate::registry::destination_lookup;
use crate::registry::destination_removed;
use crate::registry::destination_updated;
use crate::registry::media_added;
use crate::registry::media_of;
use crate::registry::merged_destination;
use crate::registry::merged_user;
use crate::registry::next_rating;
use crate::registry::reservation_cancelled;
use crate::registry::reservation_created;
use crate::registry::reservation_paid;
use crate::registry::status_lookup;
use crate::registry::user_lookup;
use crate::registry::user_registered;
use crate::registry::user_removed;
use crate::registry::user_updated;

verus! {

/// Registering a user and reading the id back yields exactly the registered
/// payload.
pub proof fn lemma_register_then_get_user(v: RegistryView, id: Seq<char>, u: UserView)
    ensures
        user_lookup(user_registered(v, id, u), id) == Some(u),
{
}

/// Creating a destination and reading the id back yields exactly the created
/// payload, with rating zero.
pub proof fn lemma_create_then_get_destination(
    v: RegistryView,
    id: Seq<char>,
    name: Seq<char>,
    address: Seq<char>,
    location: Seq<char>,
    description: Seq<char>,
)
    ensures
        destination_lookup(destination_created(v, id, name, address, location, description), id)
            == Some((DestinationView { name, address, location, description, rating: 0 })),
{
}

/// After a user is deleted, reading the id yields the absence indicator, and
/// no other user is touched.
pub proof fn lemma_delete_then_get_user(v: RegistryView, id: Seq<char>)
    ensures
        user_lookup(user_removed(v, id), id) is None,
        forall|k: Seq<char>| k != id ==> user_lookup(user_removed(v, id), k) == user_lookup(v, k),
{
}

/// After a destination is deleted, reading the id yields the absence
/// indicator, and no other destination is touched.
pub proof fn lemma_delete_then_get_destination(v: RegistryView, id: Seq<char>)
    ensures
        destination_lookup(destination_removed(v, id), id) is None,
        forall|k: Seq<char>|
            k != id ==> destination_lookup(destination_removed(v, id), k) == destination_lookup(
                v,
                k,
            ),
{
}

/// A user update with every field omitted leaves the registry identical.
pub proof fn lemma_update_user_all_omitted(v: RegistryView, id: Seq<char>)
    requires
        v.users.dom().contains(id),
    ensures
        user_updated(v, id, None, None, None) == v,
{
    assert(merged_user(v.users[id], None, None, None) == v.users[id]);
    assert(v.users.insert(id, v.users[id]) =~= v.users);
    assert(user_updated(v, id, None, None, None) =~= v);
}

/// A destination update with every field omitted leaves the registry
/// identical.
pub proof fn lemma_update_destination_all_omitted(v: RegistryView, id: Seq<char>)
    requires
        v.destinations.dom().contains(id),
    ensures
        destination_updated(v, id, None, None, None) == v,
{
    assert(merged_destination(v.destinations[id], None, None, None) == v.destinations[id]);
    assert(v.destinations.insert(id, v.destinations[id]) =~= v.destinations);
    assert(destination_updated(v, id, None, None, None) =~= v);
}

/// A user update touches exactly the supplied fields of exactly the given
/// id: each supplied field is replaced, each omitted field keeps its stored
/// value, birth date and gender are immutable, and every other user is
/// unchanged.
pub proof fn lemma_update_user_field_isolation(
    v: RegistryView,
    id: Seq<char>,
    name: Option<Seq<char>>,
    email: Option<Seq<char>>,
    phone: Option<Seq<char>>,
)
    requires
        v.users.dom().contains(id),
    ensures
        ({
            let before = v.users[id];
            let after = user_updated(v, id, name, email, phone).users[id];
            &&& after.name == (if name is Some { name->0 } else { before.name })
            &&& after.email == (if email is Some { email->0 } else { before.email })
            &&& after.phone == (if phone is Some { phone->0 } else { before.phone })
            &&& after.birth_date == before.birth_date
            &&& after.gender == before.gender
        }),
        forall|k: Seq<char>|
            k != id ==> user_lookup(user_updated(v, id, name, email, phone), k) == user_lookup(
                v,
                k,
            ),
{
}

/// A destination update touches exactly the supplied fields of exactly the
/// given id: location and rating are immutable, and every other destination
/// is unchanged.
pub proof fn lemma_update_destination_field_isolation(
    v: RegistryView,
    id: Seq<char>,
    name: Option<Seq<char>>,
    address: Option<Seq<char>>,
    description: Option<Seq<char>>,
)
    requires
        v.destinations.dom().contains(id),
    ensures
        ({
            let before = v.destinations[id];
            let after = destination_updated(v, id, name, address, description).destinations[id];
            &&& after.name == (if name is Some { name->0 } else { before.name })
            &&& after.address == (if address is Some { address->0 } else { before.address })
            &&& after.description == (if description is Some {
                description->0
            } else {
                before.description
            })
            &&& after.location == before.location
            &&& after.rating == before.rating
        }),
        forall|k: Seq<char>|
            k != id ==> destination_lookup(destination_updated(v, id, name, address, description), k)
                == destination_lookup(v, k),
{
}

/// The first comment's rating becomes the destination's rating exactly: with
/// one comment in the log the incremental mean collapses to the new rating.
pub proof fn lemma_first_comment_rating(prev: int, r: int)
    ensures
        next_rating(prev, 1, r) == r,
{
}

/// The incremental mean never exceeds the larger of the previous stored
/// rating and the newly appended rating, and never goes negative.
pub proof fn lemma_next_rating_bounds(prev: int, n: int, r: int)
    requires
        0 <= prev,
        0 <= r,
        1 <= n,
    ensures
        0 <= next_rating(prev, n, r),
        next_rating(prev, n, r) <= (if prev >= r { prev } else { r }),
{
    let mx: int = if prev >= r {
        prev
    } else {
        r
    };
    assert(prev * (n - 1) + r <= mx * n) by (nonlinear_arith)
        requires
            0 <= prev <= mx,
            0 <= r <= mx,
            1 <= n,
    ;
    assert(0 <= prev * (n - 1) + r) by (nonlinear_arith)
        requires
            0 <= prev,
            0 <= r,
            1 <= n,
    ;
    vstd::arithmetic::div_mod::lemma_div_is_ordered(prev * (n - 1) + r, mx * n, n);
    vstd::arithmetic::div_mod::lemma_div_by_multiple(mx, n);
    vstd::arithmetic::div_mod::lemma_div_pos_is_pos(prev * (n - 1) + r, n);
}

/// A fresh reservation reads back as `"reserved"`.
pub proof fn lemma_create_then_status(
    v: RegistryView,
    id: Seq<char>,
    user_id: Seq<char>,
    dest_id: Seq<char>,
    check_in: Seq<char>,
    check_out: Seq<char>,
)
    ensures
        status_lookup(reservation_created(v, id, user_id, dest_id, check_in, check_out), id)
            == Some("reserved"@),
        !reservation_created(v, id, user_id, dest_id, check_in, check_out).reservations[id].paid,
{
}

/// A cancelled reservation reads back as `"cancelled"`, and cancelling is
/// idempotent in effect: cancelling again re-sets the same state.
pub proof fn lemma_cancel_then_status(v: RegistryView, id: Seq<char>)
    requires
        v.reservations.dom().contains(id),
    ensures
        status_lookup(reservation_cancelled(v, id), id) == Some("cancelled"@),
        reservation_cancelled(reservation_cancelled(v, id), id) == reservation_cancelled(v, id),
{
    let v1 = reservation_cancelled(v, id);
    let v2 = reservation_cancelled(v1, id);
    assert(v2.reservations =~= v1.reservations);
    assert(v2.reservations_index =~= v1.reservations_index);
    assert(v2 =~= v1);
}

/// Paying an unknown reservation id has no observable effect at all.
pub proof fn lemma_pay_unknown_no_effect(v: RegistryView, id: Seq<char>, tx_ref: Seq<char>)
    requires
        !v.reservations.dom().contains(id),
    ensures
        reservation_paid(v, id, tx_ref) == v,
{
}

/// Paying a known reservation sets the paid flag and leaves the status —
/// cancelled or not — exactly as it was.
pub proof fn lemma_pay_preserves_status(v: RegistryView, id: Seq<char>, tx_ref: Seq<char>)
    requires
        v.reservations.dom().contains(id),
    ensures
        reservation_paid(v, id, tx_ref).reservations[id].paid,
        status_lookup(reservation_paid(v, id, tx_ref), id) == status_lookup(v, id),
{
}

/// Appending media never touches any record outside the media log, and it
/// extends exactly the one log by exactly the one entry.
pub proof fn lemma_media_append_isolated(
    v: RegistryView,
    id: Seq<char>,
    url: Seq<char>,
    media_type: Seq<char>,
)
    ensures
        ({
            let v1 = media_added(v, id, url, media_type);
            &&& media_of(v1, id).len() == media_of(v, id).len() + 1
            &&& media_of(v1, id).last().url == url
            &&& media_of(v1, id).last().media_type == media_type
            &&& forall|k: Seq<char>| k != id ==> media_of(v1, k) == media_of(v, k)
            &&& v1.destinations == v.destinations
            &&& v1.comments == v.comments
        }),
{
}

/// Appending a comment extends exactly the one log by exactly the one entry
/// and changes nothing of the destination record but its rating.
pub proof fn lemma_comment_append_isolated(
    v: RegistryView,
    id: Seq<char>,
    author: Seq<char>,
    text: Seq<char>,
    rating: u32,
)
    requires
        v.destinations.dom().contains(id),
    ensures
        ({
            let v1 = comment_added(v, id, author, text, rating);
            &&& comments_of(v1, id).len() == comments_of(v, id).len() + 1
            &&& comments_of(v1, id).last().author == author
            &&& comments_of(v1, id).last().text == text
            &&& comments_of(v1, id).last().rating == rating
            &&& forall|k: Seq<char>| k != id ==> comments_of(v1, k) == comments_of(v, k)
            &&& v1.destinations[id].name == v.destinations[id].name
            &&& v1.destinations[id].address == v.destinations[id].address
            &&& v1.destinations[id].location == v.destinations[id].location
            &&& v1.destinations[id].description == v.destinations[id].description
            &&& v1.destinations[id].rating as int == next_rating(
                v.destinations[id].rating as int,
                comments_of(v, id).len() as int + 1,
                rating as int,
            )
            &&& v1.media == v.media
            &&& v1.users == v.users
            &&& v1.reservations == v.reservations
        }),
{
    lemma_next_rating_bounds(
        v.destinations[id].rating as int,
        comments_of(v, id).len() as int + 1,
        rating as int,
    );
}

} // verus!
