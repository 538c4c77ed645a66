//! The travel-booking registry: users, destinations, per-destination comment
//! and media logs, and reservations, each namespace an index table (id to
//! status marker) beside a detail table, as the composite-key storage scheme
//! prescribes. Every operation's effect is stated as a transition on the
//! registry's mathematical view.

use vstd::prelude::*;
use vstd::arithmetic::div_mod::lemma_div_by_multiple;
use vstd::arithmetic::div_mod::lemma_div_is_ordered;
use vstd::arithmetic::div_mod::lemma_div_pos_is_pos;

use crate::keytable::KeyTable;
use crate::records::CommentRecord;
use crate::records::CommentView;
use crate::records::DestinationRecord;
use crate::records::DestinationView;
use crate::records::Error;
use crate::records::MediaRecord;
use crate::records::MediaView;
use crate::records::ReservationRecord;
use crate::records::ReservationView;
use crate::records::UserRecord;
use crate::records::UserView;

verus! {

/// The registry's whole state: for each of the three entity namespaces an
/// index table beside a detail table, plus the two per-destination logs.
pub struct AlasLatinas {
    users_index: KeyTable<String>,
    users: KeyTable<UserRecord>,
    destinations_index: KeyTable<String>,
    destinations: KeyTable<DestinationRecord>,
    comments: KeyTable<Vec<CommentRecord>>,
    media: KeyTable<Vec<MediaRecord>>,
    reservations_index: KeyTable<String>,
    reservations: KeyTable<ReservationRecord>,
}

/// The mathematical value of the whole registry.
#[verifier::ext_equal]
pub struct RegistryView {
    pub users_index: Map<Seq<char>, Seq<char>>,
    pub users: Map<Seq<char>, UserView>,
    pub destinations_index: Map<Seq<char>, Seq<char>>,
    pub destinations: Map<Seq<char>, DestinationView>,
    pub comments: Map<Seq<char>, Seq<CommentView>>,
    pub media: Map<Seq<char>, Seq<MediaView>>,
    pub reservations_index: Map<Seq<char>, Seq<char>>,
    pub reservations: Map<Seq<char>, ReservationView>,
}

impl View for AlasLatinas {
    type V = RegistryView;

    closed spec fn view(&self) -> RegistryView {
        RegistryView {
            users_index: self.users_index@,
            users: self.users@,
            destinations_index: self.destinations_index@,
            destinations: self.destinations@,
            comments: self.comments@,
            media: self.media@,
            reservations_index: self.reservations_index@,
            reservations: self.reservations@,
        }
    }
}

/// The cross-table consistency the registry maintains: an index entry exists
/// iff the detail record exists; entity index markers are `"active"`; a
/// reservation's index marker mirrors its stored status, which is either
/// `"reserved"` or `"cancelled"`.
pub open spec fn consistent(v: RegistryView) -> bool {
    &&& v.users_index.dom() == v.users.dom()
    &&& v.destinations_index.dom() == v.destinations.dom()
    &&& v.reservations_index.dom() == v.reservations.dom()
    &&& forall|k: Seq<char>|
        #[trigger] v.users_index.dom().contains(k) ==> v.users_index[k] == "active"@
    &&& forall|k: Seq<char>|
        #[trigger] v.destinations_index.dom().contains(k) ==> v.destinations_index[k]
            == "active"@
    &&& forall|k: Seq<char>|
        #[trigger] v.reservations.dom().contains(k) ==> v.reservations_index[k]
            == v.reservations[k].status
    &&& forall|k: Seq<char>|
        #[trigger] v.reservations.dom().contains(k) ==> (v.reservations[k].status == "reserved"@
            || v.reservations[k].status == "cancelled"@)
}

/// A field supplied for a partial update, or the stored value where omitted.
pub open spec fn merged_field(supplied: Option<Seq<char>>, stored: Seq<char>) -> Seq<char> {
    match supplied {
        Some(s) => s,
        None => stored,
    }
}

/// The field-level merge `update_user` performs: name, email and phone are
/// replaceable; birth date and gender are immutable after creation.
pub open spec fn merged_user(
    u: UserView,
    name: Option<Seq<char>>,
    email: Option<Seq<char>>,
    phone: Option<Seq<char>>,
) -> UserView {
    UserView {
        name: merged_field(name, u.name),
        email: merged_field(email, u.email),
        phone: merged_field(phone, u.phone),
        birth_date: u.birth_date,
        gender: u.gender,
    }
}

/// The registry after a successful `register_user`.
pub open spec fn user_registered(v: RegistryView, id: Seq<char>, u: UserView) -> RegistryView {
    RegistryView {
        users_index: v.users_index.insert(id, "active"@),
        users: v.users.insert(id, u),
        ..v
    }
}

/// The registry after a successful `delete_user`.
pub open spec fn user_removed(v: RegistryView, id: Seq<char>) -> RegistryView {
    RegistryView { users_index: v.users_index.remove(id), users: v.users.remove(id), ..v }
}

/// The registry after a successful `update_user`.
pub open spec fn user_updated(
    v: RegistryView,
    id: Seq<char>,
    name: Option<Seq<char>>,
    email: Option<Seq<char>>,
    phone: Option<Seq<char>>,
) -> RegistryView {
    RegistryView { users: v.users.insert(id, merged_user(v.users[id], name, email, phone)), ..v }
}

/// What `get_user` returns: the detail record, or an absence indicator.
pub open spec fn user_lookup(v: RegistryView, id: Seq<char>) -> Option<UserView> {
    if v.users.dom().contains(id) {
        Some(v.users[id])
    } else {
        None
    }
}

/// The field-level merge `update_destination` performs: name, address and
/// description are replaceable; location and rating are untouched.
pub open spec fn merged_destination(
    d: DestinationView,
    name: Option<Seq<char>>,
    address: Option<Seq<char>>,
    description: Option<Seq<char>>,
) -> DestinationView {
    DestinationView {
        name: merged_field(name, d.name),
        address: merged_field(address, d.address),
        location: d.location,
        description: merged_field(description, d.description),
        rating: d.rating,
    }
}

/// The registry after a successful `create_destination`: the new record
/// starts with rating zero.
pub open spec fn destination_created(
    v: RegistryView,
    id: Seq<char>,
    name: Seq<char>,
    address: Seq<char>,
    location: Seq<char>,
    description: Seq<char>,
) -> RegistryView {
    RegistryView {
        destinations_index: v.destinations_index.insert(id, "active"@),
        destinations: v.destinations.insert(
            id,
            (DestinationView { name, address, location, description, rating: 0 }),
        ),
        ..v
    }
}

/// The registry after a successful `delete_destination`: the comment and
/// media logs of the id are left as they are.
pub open spec fn destination_removed(v: RegistryView, id: Seq<char>) -> RegistryView {
    RegistryView {
        destinations_index: v.destinations_index.remove(id),
        destinations: v.destinations.remove(id),
        ..v
    }
}

/// The registry after a successful `update_destination`.
pub open spec fn destination_updated(
    v: RegistryView,
    id: Seq<char>,
    name: Option<Seq<char>>,
    address: Option<Seq<char>>,
    description: Option<Seq<char>>,
) -> RegistryView {
    RegistryView {
        destinations: v.destinations.insert(
            id,
            merged_destination(v.destinations[id], name, address, description),
        ),
        ..v
    }
}

/// What `get_destination` returns: the detail record, or an absence
/// indicator.
pub open spec fn destination_lookup(v: RegistryView, id: Seq<char>) -> Option<DestinationView> {
    if v.destinations.dom().contains(id) {
        Some(v.destinations[id])
    } else {
        None
    }
}

/// A destination's media log; an absent entry is the empty log.
pub open spec fn media_of(v: RegistryView, id: Seq<char>) -> Seq<MediaView> {
    if v.media.dom().contains(id) {
        v.media[id]
    } else {
        Seq::empty()
    }
}

/// A destination's comment log; an absent entry is the empty log.
pub open spec fn comments_of(v: RegistryView, id: Seq<char>) -> Seq<CommentView> {
    if v.comments.dom().contains(id) {
        v.comments[id]
    } else {
        Seq::empty()
    }
}

/// The registry after `upload_media`: the pair is appended to the id's log,
/// whether or not the destination exists.
pub open spec fn media_added(
    v: RegistryView,
    id: Seq<char>,
    url: Seq<char>,
    media_type: Seq<char>,
) -> RegistryView {
    RegistryView {
        media: v.media.insert(id, media_of(v, id).push((MediaView { url, media_type }))),
        ..v
    }
}

/// The incremental rating recomputation: the truncated mean of the previous
/// stored rating weighted by the prior comment count and the newly appended
/// rating, where `n` is the comment count after the append.
pub open spec fn next_rating(prev: int, n: int, r: int) -> int {
    (prev * (n - 1) + r) / n
}

/// The registry after a successful `add_comment`: the comment is appended to
/// the id's log and only the destination's rating field changes.
pub open spec fn comment_added(
    v: RegistryView,
    id: Seq<char>,
    author: Seq<char>,
    text: Seq<char>,
    rating: u32,
) -> RegistryView {
    let log = comments_of(v, id).push((CommentView { author, text, rating }));
    let d = v.destinations[id];
    let recomputed = next_rating(d.rating as int, log.len() as int, rating as int);
    RegistryView {
        comments: v.comments.insert(id, log),
        destinations: v.destinations.insert(id, (DestinationView { rating: recomputed as u32, ..d })),
        ..v
    }
}


/// The registry after a successful `create_reservation`: status `"reserved"`,
/// unpaid, and the stored numeric field zero — the price offered at creation
/// is accepted but never persisted.
pub open spec fn reservation_created(
    v: RegistryView,
    id: Seq<char>,
    user_id: Seq<char>,
    dest_id: Seq<char>,
    check_in: Seq<char>,
    check_out: Seq<char>,
) -> RegistryView {
    RegistryView {
        reservations_index: v.reservations_index.insert(id, "reserved"@),
        reservations: v.reservations.insert(
            id,
            (ReservationView {
                user_id,
                dest_id,
                check_in,
                check_out,
                amount: 0,
                status: "reserved"@,
                paid: false,
            }),
        ),
        ..v
    }
}

/// The registry after a successful `cancel_reservation`: only the status
/// (and its index mirror) changes, to the terminal `"cancelled"`.
pub open spec fn reservation_cancelled(v: RegistryView, id: Seq<char>) -> RegistryView {
    RegistryView {
        reservations_index: v.reservations_index.insert(id, "cancelled"@),
        reservations: v.reservations.insert(
            id,
            (ReservationView { status: "cancelled"@, ..v.reservations[id] }),
        ),
        ..v
    }
}

/// The registry after `pay_reservation`: on an unknown id, unchanged; on a
/// known id, `paid` is set and the stored numeric field is overwritten with
/// the character length of the payment reference, while status is untouched.
pub open spec fn reservation_paid(v: RegistryView, id: Seq<char>, tx_ref: Seq<char>) -> RegistryView {
    if v.reservations.dom().contains(id) {
        RegistryView {
            reservations: v.reservations.insert(
                id,
                (ReservationView { amount: tx_ref.len() as u64, paid: true, ..v.reservations[id] }),
            ),
            ..v
        }
    } else {
        v
    }
}

/// What `get_reservation_status` returns: the stored status, or an absence
/// indicator.
pub open spec fn status_lookup(v: RegistryView, id: Seq<char>) -> Option<Seq<char>> {
    if v.reservations.dom().contains(id) {
        Some(v.reservations[id].status)
    } else {
        None
    }
}

impl AlasLatinas {
    /// The representation invariant: every table holds distinct keys, and the
    /// tables are mutually [`consistent`].
    pub closed spec fn wf(&self) -> bool {
        &&& self.users_index.wf()
        &&& self.users.wf()
        &&& self.destinations_index.wf()
        &&& self.destinations.wf()
        &&& self.comments.wf()
        &&& self.media.wf()
        &&& self.reservations_index.wf()
        &&& self.reservations.wf()
        &&& consistent(self@)
    }

    /// Well-formedness is not private knowledge: it always yields the view's
    /// cross-table consistency.
    pub proof fn lemma_wf_consistent(&self)
        requires
            self.wf(),
        ensures
            consistent(self@),
    {
    }

    /// An empty registry.
    pub fn new() -> (r: AlasLatinas)
        ensures
            r.wf(),
            r@.users_index == Map::<Seq<char>, Seq<char>>::empty(),
            r@.users == Map::<Seq<char>, UserView>::empty(),
            r@.destinations_index == Map::<Seq<char>, Seq<char>>::empty(),
            r@.destinations == Map::<Seq<char>, DestinationView>::empty(),
            r@.comments == Map::<Seq<char>, Seq<CommentView>>::empty(),
            r@.media == Map::<Seq<char>, Seq<MediaView>>::empty(),
            r@.reservations_index == Map::<Seq<char>, Seq<char>>::empty(),
            r@.reservations == Map::<Seq<char>, ReservationView>::empty(),
    {
        AlasLatinas {
            users_index: KeyTable::new(),
            users: KeyTable::new(),
            destinations_index: KeyTable::new(),
            destinations: KeyTable::new(),
            comments: KeyTable::new(),
            media: KeyTable::new(),
            reservations_index: KeyTable::new(),
            reservations: KeyTable::new(),
        }
    }

    /// Registers a user: refused with `DuplicateEntity` when the id is
    /// already indexed; otherwise writes the detail record, then the index
    /// entry.
    pub fn register_user(
        &mut self,
        user_id: String,
        name: String,
        email: String,
        phone: String,
        birth_date: String,
        gender: String,
    ) -> (r: Result<(), Error>)
        requires
            old(self).wf(),
        ensures
            final(self).wf(),
            (r is Ok) == !old(self)@.users_index.contains_key(user_id@),
            r is Ok ==> final(self)@ == user_registered(
                old(self)@,
                user_id@,
                (UserView {
                    name: name@,
                    email: email@,
                    phone: phone@,
                    birth_date: birth_date@,
                    gender: gender@,
                }),
            ),
            r is Err ==> r == Err::<(), Error>(Error::DuplicateEntity) && *final(self) == *old(
                self,
            ),
    {
        if self.users_index.contains_key(&user_id) {
            return Err(Error::DuplicateEntity);
        }
        let record = UserRecord { name, email, phone, birth_date, gender };
        self.users.put(user_id.clone(), record);
        self.users_index.put(user_id, "active".to_owned());
        Ok(())
    }

    /// Deletes a user: refused with `NotFound` when the id is not indexed;
    /// otherwise removes the detail record, then the index entry.
    pub fn delete_user(&mut self, user_id: String) -> (r: Result<(), Error>)
        requires
            old(self).wf(),
        ensures
            final(self).wf(),
            (r is Ok) == old(self)@.users_index.contains_key(user_id@),
            r is Ok ==> final(self)@ == user_removed(old(self)@, user_id@),
            r is Err ==> r == Err::<(), Error>(Error::NotFound) && *final(self) == *old(self),
    {
        if !self.users_index.contains_key(&user_id) {
            return Err(Error::NotFound);
        }
        let _detail = self.users.take(&user_id);
        let _marker = self.users_index.take(&user_id);
        Ok(())
    }

    /// Updates a user by field-level merge: each supplied field replaces the
    /// stored one, omitted fields keep their previous value, and birth date
    /// and gender are immutable. Refused with `NotFound` when the id is not
    /// indexed.
    pub fn update_user(
        &mut self,
        user_id: String,
        name: Option<String>,
        email: Option<String>,
        phone: Option<String>,
    ) -> (r: Result<(), Error>)
        requires
            old(self).wf(),
        ensures
            final(self).wf(),
            (r is Ok) == old(self)@.users_index.contains_key(user_id@),
            r is Ok ==> final(self)@ == user_updated(
                old(self)@,
                user_id@,
                name.deep_view(),
                email.deep_view(),
                phone.deep_view(),
            ),
            r is Err ==> r == Err::<(), Error>(Error::NotFound) && *final(self) == *old(self),
    {
        if !self.users_index.contains_key(&user_id) {
            return Err(Error::NotFound);
        }
        let existing = match self.users.take(&user_id) {
            Some(u) => u,
            // unreachable while the index and detail tables agree; an empty
            // record keeps the merge total
            None => UserRecord {
                name: String::new(),
                email: String::new(),
                phone: String::new(),
                birth_date: String::new(),
                gender: String::new(),
            },
        };
        let updated = UserRecord {
            name: match name {
                Some(n) => n,
                None => existing.name,
            },
            email: match email {
                Some(e) => e,
                None => existing.email,
            },
            phone: match phone {
                Some(p) => p,
                None => existing.phone,
            },
            birth_date: existing.birth_date,
            gender: existing.gender,
        };
        self.users.put(user_id, updated);
        proof {
            assert(self@.users =~= old(self)@.users.insert(
                user_id@,
                merged_user(old(self)@.users[user_id@], name.deep_view(), email.deep_view(), phone.deep_view()),
            ));
            assert(self@.users.dom() =~= old(self)@.users.dom());
            assert(final(self)@ =~= user_updated(
                old(self)@,
                user_id@,
                name.deep_view(),
                email.deep_view(),
                phone.deep_view(),
            ));
        }
        Ok(())
    }

    /// Returns the user's detail record, or an absence indicator; never
    /// fails.
    pub fn get_user(&self, user_id: String) -> (r: Option<UserRecord>)
        requires
            self.wf(),
        ensures
            match r {
                Some(u) => user_lookup(self@, user_id@) == Some(u@),
                None => user_lookup(self@, user_id@) is None,
            },
    {
        match self.users.get(&user_id) {
            Some(u) => Some(
                UserRecord {
                    name: u.name.clone(),
                    email: u.email.clone(),
                    phone: u.phone.clone(),
                    birth_date: u.birth_date.clone(),
                    gender: u.gender.clone(),
                },
            ),
            None => None,
        }
    }

    /// Every id currently indexed in the user namespace, in unspecified
    /// order and without repetition.
    pub fn list_users(&self) -> (r: Vec<String>)
        requires
            self.wf(),
        ensures
            forall|k: Seq<char>|
                self@.users_index.contains_key(k) <==> exists|i: int|
                    0 <= i < r@.len() && (#[trigger] r@[i])@ == k,
            forall|i: int, j: int|
                0 <= i < j < r@.len() ==> (#[trigger] r@[i])@ != (#[trigger] r@[j])@,
    {
        self.users_index.keys()
    }

    /// Whether the id is indexed in the user namespace.
    pub fn authenticate_user(&self, user_id: String) -> (r: bool)
        requires
            self.wf(),
        ensures
            r == self@.users_index.contains_key(user_id@),
    {
        self.users_index.contains_key(&user_id)
    }

    /// Creates a destination: refused with `DuplicateEntity` when the id is
    /// already indexed; otherwise writes the detail record (rating zero),
    /// then the index entry.
    pub fn create_destination(
        &mut self,
        dest_id: String,
        name: String,
        address: String,
        location: String,
        description: String,
    ) -> (r: Result<(), Error>)
        requires
            old(self).wf(),
        ensures
            final(self).wf(),
            (r is Ok) == !old(self)@.destinations_index.contains_key(dest_id@),
            r is Ok ==> final(self)@ == destination_created(
                old(self)@,
                dest_id@,
                name@,
                address@,
                location@,
                description@,
            ),
            r is Err ==> r == Err::<(), Error>(Error::DuplicateEntity) && *final(self) == *old(
                self,
            ),
    {
        if self.destinations_index.contains_key(&dest_id) {
            return Err(Error::DuplicateEntity);
        }
        let record = DestinationRecord { name, address, location, description, rating: 0 };
        self.destinations.put(dest_id.clone(), record);
        self.destinations_index.put(dest_id, "active".to_owned());
        Ok(())
    }

    /// Deletes a destination: refused with `NotFound` when the id is not
    /// indexed; otherwise removes the detail record, then the index entry.
    /// The id's comment and media logs are not touched.
    pub fn delete_destination(&mut self, dest_id: String) -> (r: Result<(), Error>)
        requires
            old(self).wf(),
        ensures
            final(self).wf(),
            (r is Ok) == old(self)@.destinations_index.contains_key(dest_id@),
            r is Ok ==> final(self)@ == destination_removed(old(self)@, dest_id@),
            r is Err ==> r == Err::<(), Error>(Error::NotFound) && *final(self) == *old(self),
    {
        if !self.destinations_index.contains_key(&dest_id) {
            return Err(Error::NotFound);
        }
        let _detail = self.destinations.take(&dest_id);
        let _marker = self.destinations_index.take(&dest_id);
        Ok(())
    }

    /// Updates a destination by field-level merge: name, address and
    /// description are replaceable; location is immutable and the rating is
    /// owned by `add_comment`. Refused with `NotFound` when the id is not
    /// indexed.
    pub fn update_destination(
        &mut self,
        dest_id: String,
        name: Option<String>,
        address: Option<String>,
        description: Option<String>,
    ) -> (r: Result<(), Error>)
        requires
            old(self).wf(),
        ensures
            final(self).wf(),
            (r is Ok) == old(self)@.destinations_index.contains_key(dest_id@),
            r is Ok ==> final(self)@ == destination_updated(
                old(self)@,
                dest_id@,
                name.deep_view(),
                address.deep_view(),
                description.deep_view(),
            ),
            r is Err ==> r == Err::<(), Error>(Error::NotFound) && *final(self) == *old(self),
    {
        if !self.destinations_index.contains_key(&dest_id) {
            return Err(Error::NotFound);
        }
        let existing = match self.destinations.take(&dest_id) {
            Some(d) => d,
            // unreachable while the index and detail tables agree; an empty
            // record keeps the merge total
            None => DestinationRecord {
                name: String::new(),
                address: String::new(),
                location: String::new(),
                description: String::new(),
                rating: 0,
            },
        };
        let updated = DestinationRecord {
            name: match name {
                Some(n) => n,
                None => existing.name,
            },
            address: match address {
                Some(a) => a,
                None => existing.address,
            },
            location: existing.location,
            description: match description {
                Some(d) => d,
                None => existing.description,
            },
            rating: existing.rating,
        };
        self.destinations.put(dest_id, updated);
        proof {
            assert(self@.destinations =~= old(self)@.destinations.insert(
                dest_id@,
                merged_destination(
                    old(self)@.destinations[dest_id@],
                    name.deep_view(),
                    address.deep_view(),
                    description.deep_view(),
                ),
            ));
            assert(self@.destinations.dom() =~= old(self)@.destinations.dom());
            assert(final(self)@ =~= destination_updated(
                old(self)@,
                dest_id@,
                name.deep_view(),
                address.deep_view(),
                description.deep_view(),
            ));
        }
        Ok(())
    }

    /// Returns the destination's detail record, or an absence indicator;
    /// never fails.
    pub fn get_destination(&self, dest_id: String) -> (r: Option<DestinationRecord>)
        requires
            self.wf(),
        ensures
            match r {
                Some(d) => destination_lookup(self@, dest_id@) == Some(d@),
                None => destination_lookup(self@, dest_id@) is None,
            },
    {
        match self.destinations.get(&dest_id) {
            Some(d) => Some(
                DestinationRecord {
                    name: d.name.clone(),
                    address: d.address.clone(),
                    location: d.location.clone(),
                    description: d.description.clone(),
                    rating: d.rating,
                },
            ),
            None => None,
        }
    }

    /// Every id currently indexed in the destination namespace, in
    /// unspecified order and without repetition.
    pub fn list_destinations(&self) -> (r: Vec<String>)
        requires
            self.wf(),
        ensures
            forall|k: Seq<char>|
                self@.destinations_index.contains_key(k) <==> exists|i: int|
                    0 <= i < r@.len() && (#[trigger] r@[i])@ == k,
            forall|i: int, j: int|
                0 <= i < j < r@.len() ==> (#[trigger] r@[i])@ != (#[trigger] r@[j])@,
    {
        self.destinations_index.keys()
    }

    /// Appends a (url, type) pair to the id's media log. The log is
    /// append-only and the append is not conditioned on the destination
    /// existing.
    pub fn upload_media(&mut self, dest_id: String, media_url: String, media_type: String)
        requires
            old(self).wf(),
        ensures
            final(self).wf(),
            final(self)@ == media_added(old(self)@, dest_id@, media_url@, media_type@),
    {
        let mut list = match self.media.take(&dest_id) {
            Some(l) => l,
            None => Vec::new(),
        };
        let ghost prior = list.deep_view();
        proof {
            assert(prior =~= media_of(old(self)@, dest_id@));
        }
        list.push(MediaRecord { url: media_url, media_type });
        proof {
            assert(list.deep_view() =~= prior.push((MediaView {
                url: media_url@,
                media_type: media_type@,
            })));
        }
        self.media.put(dest_id, list);
        proof {
            assert(self@.media =~= media_added(old(self)@, dest_id@, media_url@, media_type@).media);
            assert(final(self)@ =~= media_added(old(self)@, dest_id@, media_url@, media_type@));
        }
    }

    /// Appends a comment to the id's log, then recomputes the destination's
    /// stored rating incrementally from the previous stored rating, the new
    /// comment count and the new rating value; only the rating field of the
    /// destination changes. Refused with `NotFound`, before anything is
    /// appended, when the destination has no detail record.
    pub fn add_comment(
        &mut self,
        dest_id: String,
        user_id: String,
        comment: String,
        rating: u32,
    ) -> (r: Result<(), Error>)
        requires
            old(self).wf(),
        ensures
            final(self).wf(),
            (r is Ok) == old(self)@.destinations.contains_key(dest_id@),
            r is Ok ==> final(self)@ == comment_added(
                old(self)@,
                dest_id@,
                user_id@,
                comment@,
                rating,
            ),
            r is Err ==> r == Err::<(), Error>(Error::NotFound) && *final(self) == *old(self),
    {
        if !self.destinations.contains_key(&dest_id) {
            return Err(Error::NotFound);
        }
        let mut list = match self.comments.take(&dest_id) {
            Some(l) => l,
            None => Vec::new(),
        };
        let ghost prior = list.deep_view();
        proof {
            assert(prior =~= comments_of(old(self)@, dest_id@));
        }
        list.push(CommentRecord { author: user_id, text: comment, rating });
        proof {
            assert(list.deep_view() =~= prior.push((CommentView {
                author: user_id@,
                text: comment@,
                rating,
            })));
        }
        let n = list.len();
        self.comments.put(dest_id.clone(), list);
        let existing = self.destinations.take(&dest_id).unwrap();
        let prev = existing.rating;
        proof {
            assert(n >= 1);
            let pa = prev as int;
            let nb = n - 1;
            assert(pa * nb <= 0xffff_ffff * 0xffff_ffff_ffff_ffff) by (nonlinear_arith)
                requires
                    0 <= pa <= 0xffff_ffff,
                    0 <= nb <= 0xffff_ffff_ffff_ffff,
            ;
        }
        let total: u128 = (prev as u128) * ((n - 1) as u128) + (rating as u128);
        let mean: u128 = total / (n as u128);
        proof {
            let p = prev as int;
            let rr = rating as int;
            let nn = n as int;
            let mx: int = if p >= rr {
                p
            } else {
                rr
            };
            assert(p * (nn - 1) + rr <= mx * nn) by (nonlinear_arith)
                requires
                    0 <= p <= mx,
                    0 <= rr <= mx,
                    1 <= nn,
            ;
            assert(0 <= p * (nn - 1) + rr) by (nonlinear_arith)
                requires
                    0 <= p,
                    0 <= rr,
                    1 <= nn,
            ;
            lemma_div_is_ordered(p * (nn - 1) + rr, mx * nn, nn);
            lemma_div_by_multiple(mx, nn);
            lemma_div_pos_is_pos(p * (nn - 1) + rr, nn);
            assert(0 <= next_rating(p, nn, rr) <= mx);
            assert(total == p * (nn - 1) + rr);
            assert(mean == next_rating(p, nn, rr));
            assert(mean <= u32::MAX as u128);
        }
        let recomputed = mean as u32;
        let updated = DestinationRecord {
            name: existing.name,
            address: existing.address,
            location: existing.location,
            description: existing.description,
            rating: recomputed,
        };
        self.destinations.put(dest_id, updated);
        proof {
            let target = comment_added(old(self)@, dest_id@, user_id@, comment@, rating);
            assert(self@.comments =~= target.comments);
            assert(self@.destinations =~= target.destinations);
            assert(self@.destinations.dom() =~= old(self)@.destinations.dom());
            assert(final(self)@ =~= target);
        }
        Ok(())
    }

    /// Creates a reservation: refused with `DuplicateEntity` when the id is
    /// already indexed; otherwise stores status `"reserved"`, paid false and
    /// a zero numeric field. The supplied price is accepted but deliberately
    /// not persisted anywhere, as the contract's transition shows.
    pub fn create_reservation(
        &mut self,
        reservation_id: String,
        user_id: String,
        dest_id: String,
        check_in: String,
        check_out: String,
        _total_price: u64,
    ) -> (r: Result<(), Error>)
        requires
            old(self).wf(),
        ensures
            final(self).wf(),
            (r is Ok) == !old(self)@.reservations_index.contains_key(reservation_id@),
            r is Ok ==> final(self)@ == reservation_created(
                old(self)@,
                reservation_id@,
                user_id@,
                dest_id@,
                check_in@,
                check_out@,
            ),
            r is Err ==> r == Err::<(), Error>(Error::DuplicateEntity) && *final(self) == *old(
                self,
            ),
    {
        if self.reservations_index.contains_key(&reservation_id) {
            return Err(Error::DuplicateEntity);
        }
        let record = ReservationRecord {
            user_id,
            dest_id,
            check_in,
            check_out,
            amount: 0,
            status: "reserved".to_owned(),
            paid: false,
        };
        self.reservations.put(reservation_id.clone(), record);
        self.reservations_index.put(reservation_id, "reserved".to_owned());
        Ok(())
    }

    /// Cancels a reservation: refused with `NotFound` when the id is not
    /// indexed; otherwise sets the terminal status `"cancelled"` in the
    /// detail record and the index. Idempotent in effect: cancelling again
    /// re-sets the same value.
    pub fn cancel_reservation(&mut self, reservation_id: String) -> (r: Result<(), Error>)
        requires
            old(self).wf(),
        ensures
            final(self).wf(),
            (r is Ok) == old(self)@.reservations_index.contains_key(reservation_id@),
            r is Ok ==> final(self)@ == reservation_cancelled(old(self)@, reservation_id@),
            r is Err ==> r == Err::<(), Error>(Error::NotFound) && *final(self) == *old(self),
    {
        if !self.reservations_index.contains_key(&reservation_id) {
            return Err(Error::NotFound);
        }
        match self.reservations.take(&reservation_id) {
            Some(existing) => {
                let updated = ReservationRecord {
                    user_id: existing.user_id,
                    dest_id: existing.dest_id,
                    check_in: existing.check_in,
                    check_out: existing.check_out,
                    amount: existing.amount,
                    status: "cancelled".to_owned(),
                    paid: existing.paid,
                };
                self.reservations.put(reservation_id.clone(), updated);
            },
            // unreachable while the index and detail tables agree
            None => {},
        }
        self.reservations_index.put(reservation_id, "cancelled".to_owned());
        proof {
            let target = reservation_cancelled(old(self)@, reservation_id@);
            assert(self@.reservations =~= target.reservations);
            assert(self@.reservations.dom() =~= old(self)@.reservations.dom());
            assert(self@.reservations_index.dom() =~= old(self)@.reservations_index.dom());
            assert(final(self)@ =~= target);
        }
        Ok(())
    }

    /// Returns the reservation's stored status, or an absence indicator;
    /// never fails.
    pub fn get_reservation_status(&self, reservation_id: String) -> (r: Option<String>)
        requires
            self.wf(),
        ensures
            match r {
                Some(s) => status_lookup(self@, reservation_id@) == Some(s@),
                None => status_lookup(self@, reservation_id@) is None,
            },
    {
        match self.reservations.get(&reservation_id) {
            Some(rec) => Some(rec.status.clone()),
            None => None,
        }
    }

    /// Pays a reservation. Unlike every other mutator this silently does
    /// nothing on an unknown id. On a known id it sets `paid` and overwrites
    /// the stored numeric field with the character length of the payment
    /// reference; the status — cancelled or not — is untouched.
    pub fn pay_reservation(&mut self, reservation_id: String, tx_ref: String)
        requires
            old(self).wf(),
        ensures
            final(self).wf(),
            final(self)@ == reservation_paid(old(self)@, reservation_id@, tx_ref@),
    {
        match self.reservations.take(&reservation_id) {
            Some(existing) => {
                let len_chars = tx_ref.as_str().unicode_len();
                let updated = ReservationRecord {
                    user_id: existing.user_id,
                    dest_id: existing.dest_id,
                    check_in: existing.check_in,
                    check_out: existing.check_out,
                    amount: len_chars as u64,
                    status: existing.status,
                    paid: true,
                };
                self.reservations.put(reservation_id, updated);
                proof {
                    let target = reservation_paid(old(self)@, reservation_id@, tx_ref@);
                    assert(self@.reservations =~= target.reservations);
                    assert(self@.reservations.dom() =~= old(self)@.reservations.dom());
                    assert(final(self)@ =~= target);
                }
            },
            None => {},
        }
    }
}

} // verus!
