//! Entries of the collection and partial updates to them.

use crate::maybe::Maybe;
use vstd::prelude::*;

verus! {

/// One entry of the collection. Its attachment is kept elsewhere; the entry
/// only says whether it has one.
#[derive(Debug, Clone, PartialEq, Eq)]
pub struct Message {
    pub uuid: String,
    pub author: String,
    pub message: Option<String>,
    pub likes: i32,
    pub has_image: bool,
}

pub struct MessageView {
    pub uuid: Seq<char>,
    pub author: Seq<char>,
    pub message: Option<Seq<char>>,
    pub likes: i32,
    pub has_image: bool,
}

impl View for Message {
    type V = MessageView;

    open spec fn view(&self) -> MessageView {
        MessageView {
            uuid: self.uuid@,
            author: self.author@,
            message: self.message.deep_view(),
            likes: self.likes,
            has_image: self.has_image,
        }
    }
}

/// What an update does to an entry's attachment.
#[derive(Debug, Clone, Copy, PartialEq, Eq, Structural)]
pub enum ImageChange {
    /// The attachment stays as it is.
    Keep,
    /// The entry has no attachment afterwards.
    Remove,
    /// The payload of the update becomes the attachment.
    Save,
}

/// A partial update as a client sends it: each field left out, cleared or set.
#[derive(Debug, Clone, PartialEq, Eq)]
pub struct ServerPutUpdate {
    pub author: Maybe<String>,
    pub message: Maybe<String>,
    pub likes: Maybe<i32>,
    /// Whether the update touches the attachment.
    pub image_updated: Maybe<bool>,
    /// The new attachment, where the update brings one.
    pub image: Maybe<String>,
}

pub struct ServerPutUpdateView {
    pub author: Maybe<Seq<char>>,
    pub message: Maybe<Seq<char>>,
    pub likes: Maybe<i32>,
    pub image_updated: Maybe<bool>,
    pub image: Maybe<Seq<char>>,
}

impl View for ServerPutUpdate {
    type V = ServerPutUpdateView;

    open spec fn view(&self) -> ServerPutUpdateView {
        ServerPutUpdateView {
            author: self.author.deep_view(),
            message: self.message.deep_view(),
            likes: self.likes,
            image_updated: self.image_updated,
            image: self.image.deep_view(),
        }
    }
}

impl ServerPutUpdateView {
    /// An update touches the attachment only where `image_updated` is set to
    /// true. It then saves its payload, or removes the attachment where it
    /// brings no payload or an empty one.
    pub open spec fn image_change(self) -> ImageChange {
        if self.image_updated == Maybe::Value(true) {
            match self.image {
                Maybe::Value(payload) => if payload.len() > 0 {
                    ImageChange::Save
                } else {
                    ImageChange::Remove
                },
                _ => ImageChange::Remove,
            }
        } else {
            ImageChange::Keep
        }
    }

    /// The part of the update that is staged: all but the attachment payload.
    pub open spec fn without_image(self) -> ServerPutUpdateWithoutImageView {
        ServerPutUpdateWithoutImageView {
            author: self.author,
            message: self.message,
            likes: self.likes,
            image_updated: self.image_updated,
        }
    }
}

/// A partial update as it is staged: without the attachment payload.
#[derive(Debug, Clone, PartialEq, Eq)]
pub struct ServerPutUpdateWithoutImage {
    pub author: Maybe<String>,
    pub message: Maybe<String>,
    pub likes: Maybe<i32>,
    pub image_updated: Maybe<bool>,
}

pub struct ServerPutUpdateWithoutImageView {
    pub author: Maybe<Seq<char>>,
    pub message: Maybe<Seq<char>>,
    pub likes: Maybe<i32>,
    pub image_updated: Maybe<bool>,
}

impl View for ServerPutUpdateWithoutImage {
    type V = ServerPutUpdateWithoutImageView;

    open spec fn view(&self) -> ServerPutUpdateWithoutImageView {
        ServerPutUpdateWithoutImageView {
            author: self.author.deep_view(),
            message: self.message.deep_view(),
            likes: self.likes,
            image_updated: self.image_updated,
        }
    }
}

impl ServerPutUpdateWithoutImageView {
    /// The update that leaves every field as it is.
    pub open spec fn absent() -> Self {
        ServerPutUpdateWithoutImageView {
            author: Maybe::Absent,
            message: Maybe::Absent,
            likes: Maybe::Absent,
            image_updated: Maybe::Absent,
        }
    }

    /// This staged update with a later one laid over it: in each field the
    /// later update wins unless it leaves the field out.
    pub open spec fn overlay(self, later: ServerPutUpdateView) -> Self {
        ServerPutUpdateWithoutImageView {
            author: later.author.spec_or(self.author),
            message: later.message.spec_or(self.message),
            likes: later.likes.spec_or(self.likes),
            image_updated: later.image_updated.spec_or(self.image_updated),
        }
    }
}

impl MessageView {
    /// The entry after an update. A field that the update leaves out stays; a
    /// cleared author is empty, a cleared text is gone, a cleared count is
    /// zero. The entry has an attachment afterwards if the update saves one,
    /// none if it removes it.
    pub open spec fn apply(self, put: ServerPutUpdateView) -> MessageView {
        MessageView {
            uuid: self.uuid,
            author: put.author.spec_resolve(self.author, Seq::empty()),
            message: match put.message {
                Maybe::Absent => self.message,
                Maybe::Null => None,
                Maybe::Value(text) => Some(text),
            },
            likes: put.likes.spec_resolve(self.likes, 0i32),
            has_image: match put.image_change() {
                ImageChange::Keep => self.has_image,
                ImageChange::Remove => false,
                ImageChange::Save => true,
            },
        }
    }
}

/// What an update writes to the row of its entry in the primary store: for
/// each column the new value, or nothing where the column stays as it is.
#[derive(Debug, Clone, PartialEq, Eq)]
pub struct RowUpdate {
    pub author: Option<String>,
    /// The new text, or that the entry has none.
    pub message: Option<Option<String>>,
    pub likes: Option<i32>,
    pub has_image: Option<bool>,
}

pub struct RowUpdateView {
    pub author: Option<Seq<char>>,
    pub message: Option<Option<Seq<char>>>,
    pub likes: Option<i32>,
    pub has_image: Option<bool>,
}

impl View for RowUpdate {
    type V = RowUpdateView;

    open spec fn view(&self) -> RowUpdateView {
        RowUpdateView {
            author: self.author.deep_view(),
            message: self.message.deep_view(),
            likes: self.likes,
            has_image: self.has_image,
        }
    }
}

impl ServerPutUpdateView {
    /// What the update writes to the row of its entry: a cleared author is
    /// empty, a cleared text is gone, a cleared count is zero, and the row says
    /// whether the entry has an attachment where the update touches it.
    pub open spec fn row_update(self) -> RowUpdateView {
        RowUpdateView {
            author: match self.author {
                Maybe::Absent => None,
                Maybe::Null => Some(Seq::empty()),
                Maybe::Value(author) => Some(author),
            },
            message: match self.message {
                Maybe::Absent => None,
                Maybe::Null => Some(None),
                Maybe::Value(text) => Some(Some(text)),
            },
            likes: match self.likes {
                Maybe::Absent => None,
                Maybe::Null => Some(0i32),
                Maybe::Value(likes) => Some(likes),
            },
            has_image: match self.image_change() {
                ImageChange::Keep => None,
                ImageChange::Remove => Some(false),
                ImageChange::Save => Some(true),
            },
        }
    }
}

impl MessageView {
    /// The entry with the columns of its row written as `row` says.
    pub open spec fn with_row(self, row: RowUpdateView) -> MessageView {
        MessageView {
            uuid: self.uuid,
            author: match row.author {
                Some(author) => author,
                None => self.author,
            },
            message: match row.message {
                Some(text) => text,
                None => self.message,
            },
            likes: match row.likes {
                Some(likes) => likes,
                None => self.likes,
            },
            has_image: match row.has_image {
                Some(flag) => flag,
                None => self.has_image,
            },
        }
    }
}

/// The row that an update writes is the entry after the update: the primary
/// store and the staged entry go the same way.
pub proof fn lemma_row_update_is_apply(entry: MessageView, put: ServerPutUpdateView)
    ensures
        entry.with_row(put.row_update()) == entry.apply(put),
{
}

impl ServerPutUpdate {
    /// What the update does to the attachment of its entry.
    pub fn image_change(&self) -> (r: ImageChange)
        ensures
            r == self@.image_change(),
    {
        match self.image_updated {
            Maybe::Value(true) => match &self.image {
                Maybe::Value(payload) => {
                    if payload.as_str().is_empty() {
                        ImageChange::Remove
                    } else {
                        ImageChange::Save
                    }
                },
                _ => ImageChange::Remove,
            },
            _ => ImageChange::Keep,
        }
    }

    /// What the update writes to the row of its entry in the primary store.
    pub fn row_update(&self) -> (r: RowUpdate)
        ensures
            r@ == self@.row_update(),
    {
        RowUpdate {
            author: match &self.author {
                Maybe::Absent => None,
                Maybe::Null => Some(String::new()),
                Maybe::Value(author) => Some(author.clone()),
            },
            message: match &self.message {
                Maybe::Absent => None,
                Maybe::Null => Some(None),
                Maybe::Value(text) => Some(Some(text.clone())),
            },
            likes: match self.likes {
                Maybe::Absent => None,
                Maybe::Null => Some(0),
                Maybe::Value(likes) => Some(likes),
            },
            has_image: match self.image_change() {
                ImageChange::Keep => None,
                ImageChange::Remove => Some(false),
                ImageChange::Save => Some(true),
            },
        }
    }

    /// Drops the attachment payload.
    pub fn without_image(self) -> (r: ServerPutUpdateWithoutImage)
        ensures
            r@ == self@.without_image(),
    {
        ServerPutUpdateWithoutImage {
            author: self.author,
            message: self.message,
            likes: self.likes,
            image_updated: self.image_updated,
        }
    }
}

impl ServerPutUpdateWithoutImage {
    /// Lays a later update over this staged one.
    pub fn update(&mut self, other: ServerPutUpdate)
        ensures
            final(self)@ == old(self)@.overlay(other@),
    {
        match other.author {
            Maybe::Absent => {},
            field => {
                self.author = field;
            },
        }
        match other.message {
            Maybe::Absent => {},
            field => {
                self.message = field;
            },
        }
        self.likes = other.likes.or(self.likes);
        self.image_updated = other.image_updated.or(self.image_updated);
    }
}

impl Message {
    /// Applies a partial update to the entry.
    pub fn update(&mut self, put: ServerPutUpdate)
        ensures
            final(self)@ == old(self)@.apply(put@),
    {
        match put.image_change() {
            ImageChange::Keep => {},
            ImageChange::Remove => {
                self.has_image = false;
            },
            ImageChange::Save => {
                self.has_image = true;
            },
        }
        match put.author {
            Maybe::Absent => {},
            Maybe::Null => {
                self.author = String::new();
            },
            Maybe::Value(author) => {
                self.author = author;
            },
        }
        match put.message {
            Maybe::Absent => {},
            Maybe::Null => {
                self.message = None;
            },
            Maybe::Value(text) => {
                self.message = Some(text);
            },
        }
        self.likes = put.likes.resolve(self.likes, 0);
    }
}

/// An entry as a reader gets it: with the content of its attachment.
#[derive(Debug, Clone, PartialEq, Eq)]
pub struct CompleteMessage {
    pub uuid: String,
    pub author: String,
    pub message: Option<String>,
    pub likes: i32,
    pub image: Option<String>,
}

pub struct CompleteMessageView {
    pub uuid: Seq<char>,
    pub author: Seq<char>,
    pub message: Option<Seq<char>>,
    pub likes: i32,
    pub image: Option<Seq<char>>,
}

impl View for CompleteMessage {
    type V = CompleteMessageView;

    open spec fn view(&self) -> CompleteMessageView {
        CompleteMessageView {
            uuid: self.uuid@,
            author: self.author@,
            message: self.message.deep_view(),
            likes: self.likes,
            image: self.image.deep_view(),
        }
    }
}

impl MessageView {
    /// The entry with what the attachment store holds for it: the content goes
    /// along only where the entry says that it has an attachment.
    pub open spec fn complete(self, image: Option<Seq<char>>) -> CompleteMessageView {
        CompleteMessageView {
            uuid: self.uuid,
            author: self.author,
            message: self.message,
            likes: self.likes,
            image: if self.has_image {
                image
            } else {
                None
            },
        }
    }
}

impl CompleteMessage {
    /// Joins an entry and the content that the attachment store holds for it.
    pub fn new(message: Message, image: Option<String>) -> (r: Self)
        ensures
            r@ == message@.complete(image.deep_view()),
    {
        let has_image = message.has_image;
        CompleteMessage {
            uuid: message.uuid,
            author: message.author,
            message: message.message,
            likes: message.likes,
            image: if has_image {
                image
            } else {
                None
            },
        }
    }
}

/// A partial update as a reader gets it. `image` is left out where the
/// attachment did not change, cleared where it was removed, and set to the new
/// content where it was replaced.
#[derive(Debug, Clone, PartialEq, Eq)]
pub struct ClientPutUpdate {
    pub author: Maybe<String>,
    pub message: Maybe<String>,
    pub likes: Maybe<i32>,
    pub image: Maybe<String>,
}

pub struct ClientPutUpdateView {
    pub author: Maybe<Seq<char>>,
    pub message: Maybe<Seq<char>>,
    pub likes: Maybe<i32>,
    pub image: Maybe<Seq<char>>,
}

impl View for ClientPutUpdate {
    type V = ClientPutUpdateView;

    open spec fn view(&self) -> ClientPutUpdateView {
        ClientPutUpdateView {
            author: self.author.deep_view(),
            message: self.message.deep_view(),
            likes: self.likes,
            image: self.image.deep_view(),
        }
    }
}

impl ServerPutUpdateWithoutImageView {
    /// The staged update with what the attachment store holds for its entry.
    /// Where the update touched the attachment, content in the store means that
    /// it was replaced, none that it was removed.
    pub open spec fn deliver(self, image: Option<Seq<char>>) -> ClientPutUpdateView {
        ClientPutUpdateView {
            author: self.author,
            message: self.message,
            likes: self.likes,
            image: if self.image_updated == Maybe::Value(true) {
                match image {
                    Some(content) => Maybe::Value(content),
                    None => Maybe::Null,
                }
            } else {
                Maybe::Absent
            },
        }
    }
}

impl ClientPutUpdate {
    /// Joins a staged update and the content that the attachment store holds
    /// for its entry.
    pub fn new(update: ServerPutUpdateWithoutImage, image: Option<String>) -> (r: Self)
        ensures
            r@ == update@.deliver(image.deep_view()),
    {
        let image = match update.image_updated {
            Maybe::Value(true) => match image {
                Some(content) => Maybe::Value(content),
                None => Maybe::Null,
            },
            _ => Maybe::Absent,
        };
        ClientPutUpdate { author: update.author, message: update.message, likes: update.likes, image }
    }
}

} // verus!
