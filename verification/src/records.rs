//! The record types held by the registry, their mathematical views, and the
//! error taxonomy shared by every entity-lifecycle operation.

use vstd::prelude::*;

verus! {

/// Why a lifecycle operation was refused: creating an id that is already
/// indexed, or mutating an id that is not.
#[derive(Clone, Copy, Debug, PartialEq, Eq, Structural)]
pub enum Error {
    DuplicateEntity,
    NotFound,
}

/// A user's detail record.
pub struct UserRecord {
    pub name: String,
    pub email: String,
    pub phone: String,
    pub birth_date: String,
    pub gender: String,
}

/// The mathematical value of a [`UserRecord`].
pub struct UserView {
    pub name: Seq<char>,
    pub email: Seq<char>,
    pub phone: Seq<char>,
    pub birth_date: Seq<char>,
    pub gender: Seq<char>,
}

impl View for UserRecord {
    type V = UserView;

    open spec fn view(&self) -> UserView {
        UserView {
            name: self.name@,
            email: self.email@,
            phone: self.phone@,
            birth_date: self.birth_date@,
            gender: self.gender@,
        }
    }
}

impl DeepView for UserRecord {
    type V = UserView;

    open spec fn deep_view(&self) -> UserView {
        self.view()
    }
}

/// A destination's detail record. `rating` is the truncated integer mean of
/// every comment rating ever appended for this destination.
pub struct DestinationRecord {
    pub name: String,
    pub address: String,
    pub location: String,
    pub description: String,
    pub rating: u32,
}

/// The mathematical value of a [`DestinationRecord`].
pub struct DestinationView {
    pub name: Seq<char>,
    pub address: Seq<char>,
    pub location: Seq<char>,
    pub description: Seq<char>,
    pub rating: u32,
}

impl View for DestinationRecord {
    type V = DestinationView;

    open spec fn view(&self) -> DestinationView {
        DestinationView {
            name: self.name@,
            address: self.address@,
            location: self.location@,
            description: self.description@,
            rating: self.rating,
        }
    }
}

impl DeepView for DestinationRecord {
    type V = DestinationView;

    open spec fn deep_view(&self) -> DestinationView {
        self.view()
    }
}

/// One entry of a destination's append-only comment log.
pub struct CommentRecord {
    pub author: String,
    pub text: String,
    pub rating: u32,
}

/// The mathematical value of a [`CommentRecord`].
pub struct CommentView {
    pub author: Seq<char>,
    pub text: Seq<char>,
    pub rating: u32,
}

impl View for CommentRecord {
    type V = CommentView;

    open spec fn view(&self) -> CommentView {
        CommentView { author: self.author@, text: self.text@, rating: self.rating }
    }
}

impl DeepView for CommentRecord {
    type V = CommentView;

    open spec fn deep_view(&self) -> CommentView {
        self.view()
    }
}

/// One entry of a destination's append-only media log.
pub struct MediaRecord {
    pub url: String,
    pub media_type: String,
}

/// The mathematical value of a [`MediaRecord`].
pub struct MediaView {
    pub url: Seq<char>,
    pub media_type: Seq<char>,
}

impl View for MediaRecord {
    type V = MediaView;

    open spec fn view(&self) -> MediaView {
        MediaView { url: self.url@, media_type: self.media_type@ }
    }
}

impl DeepView for MediaRecord {
    type V = MediaView;

    open spec fn deep_view(&self) -> MediaView {
        self.view()
    }
}

/// A reservation's detail record. `amount` is zero at creation (the price
/// offered then is accepted but never persisted) and is overwritten on
/// payment with the character length of the payment reference; `status` is
/// `"reserved"` until cancellation makes it `"cancelled"`; `paid` is
/// independent of `status`.
pub struct ReservationRecord {
    pub user_id: String,
    pub dest_id: String,
    pub check_in: String,
    pub check_out: String,
    pub amount: u64,
    pub status: String,
    pub paid: bool,
}

/// The mathematical value of a [`ReservationRecord`].
pub struct ReservationView {
    pub user_id: Seq<char>,
    pub dest_id: Seq<char>,
    pub check_in: Seq<char>,
    pub check_out: Seq<char>,
    pub amount: u64,
    pub status: Seq<char>,
    pub paid: bool,
}

impl View for ReservationRecord {
    type V = ReservationView;

    open spec fn view(&self) -> ReservationView {
        ReservationView {
            user_id: self.user_id@,
            dest_id: self.dest_id@,
            check_in: self.check_in@,
            check_out: self.check_out@,
            amount: self.amount,
            status: self.status@,
            paid: self.paid,
        }
    }
}

impl DeepView for ReservationRecord {
    type V = ReservationView;

    open spec fn deep_view(&self) -> ReservationView {
        self.view()
    }
}

} // verus!
