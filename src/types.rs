use vstd::prelude::*;

use crate::timestamp::Timestamp;

verus! {

/// A remote server registration, as stored in the local settings.
pub struct RemoteServer {
    pub id: String,
    pub host: String,
    pub port: u16,
    pub db: String,
    pub user: String,
    pub password: String,
    pub db_type: String,
}

/// One row of a single `value` column.
pub struct ValueString {
    pub value: String,
}

/// One row of a single `id` column.
pub struct Id {
    pub id: String,
}

/// An id with its last modification time.
pub struct IdAndModified {
    pub id: String,
    pub modified: Timestamp,
}

/// A notebook.
pub struct Book {
    pub id: String,
    pub modified: Timestamp,
    pub name: Option<String>,
    pub icon: Option<String>,
    pub icon_color: Option<String>,
    pub trash: i32,
}

/// A document, belonging to the book whose id is `book`.
pub struct Document {
    pub id: String,
    pub book: String,
    pub modified: Timestamp,
    pub name: Option<String>,
    pub content: Option<String>,
    pub syntax: String,
    pub icon: Option<String>,
    pub icon_color: Option<String>,
}

/// A copy of an optional string, equal to the original.
pub fn copy_opt(s: &Option<String>) -> (r: Option<String>)
    ensures
        r == *s,
{
    match s {
        Some(v) => Some(v.clone()),
        None => None,
    }
}

/// A record keyed by a string id and stamped with a modification time.
pub trait Row: Sized {
    spec fn key(&self) -> Seq<char>;

    spec fn stamp(&self) -> i64;

    fn row_id(&self) -> (r: &String)
        ensures
            r@ == self.key(),
    ;

    fn row_modified(&self) -> (r: Timestamp)
        ensures
            r.micros == self.stamp(),
    ;

    /// A copy of the whole record.
    fn copy_row(&self) -> (r: Self)
        ensures
            r == *self,
    ;
}

impl Row for IdAndModified {
    open spec fn key(&self) -> Seq<char> {
        self.id@
    }

    open spec fn stamp(&self) -> i64 {
        self.modified.micros
    }

    fn row_id(&self) -> (r: &String) {
        &self.id
    }

    fn row_modified(&self) -> (r: Timestamp) {
        self.modified
    }

    fn copy_row(&self) -> (r: Self) {
        IdAndModified { id: self.id.clone(), modified: self.modified }
    }
}

impl Row for Book {
    open spec fn key(&self) -> Seq<char> {
        self.id@
    }

    open spec fn stamp(&self) -> i64 {
        self.modified.micros
    }

    fn row_id(&self) -> (r: &String) {
        &self.id
    }

    fn row_modified(&self) -> (r: Timestamp) {
        self.modified
    }

    fn copy_row(&self) -> (r: Self) {
        Book {
            id: self.id.clone(),
            modified: self.modified,
            name: copy_opt(&self.name),
            icon: copy_opt(&self.icon),
            icon_color: copy_opt(&self.icon_color),
            trash: self.trash,
        }
    }
}

impl Row for Document {
    open spec fn key(&self) -> Seq<char> {
        self.id@
    }

    open spec fn stamp(&self) -> i64 {
        self.modified.micros
    }

    fn row_id(&self) -> (r: &String) {
        &self.id
    }

    fn row_modified(&self) -> (r: Timestamp) {
        self.modified
    }

    fn copy_row(&self) -> (r: Self) {
        Document {
            id: self.id.clone(),
            book: self.book.clone(),
            modified: self.modified,
            name: copy_opt(&self.name),
            content: copy_opt(&self.content),
            syntax: self.syntax.clone(),
            icon: copy_opt(&self.icon),
            icon_color: copy_opt(&self.icon_color),
        }
    }
}

} // verus!
