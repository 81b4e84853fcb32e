//! Bookmarks kept in a `sled` key-value database: the title of each bookmarked
//! address, stored under the key `bookmark:<address>`.

use vstd::prelude::*;
use vstd::utf8::{decode_utf8, encode_utf8, valid_utf8};

verus! {

#[verifier::external_type_specification]
#[verifier::external_body]
pub struct ExSledDb(sled::Db);

#[verifier::external_type_specification]
#[verifier::external_body]
pub struct ExSledError(sled::Error);

/// What a `sled` database holds: its keys and values, as bytes.
pub uninterp spec fn db_contents(db: sled::Db) -> Map<Seq<u8>, Seq<u8>>;

/// The path a `sled` database was opened at.
pub uninterp spec fn db_path(db: sled::Db) -> Seq<char>;

/// Opens (or creates) the database at `path`.
///
/// Trusted: calls `sled::open`, which opens the database at `path` itself.
/// Nothing is stated of the contents found on disk, nor of when opening fails.
#[verifier::external_body]
fn db_open(path: &str) -> (r: Result<sled::Db, sled::Error>)
    ensures
        r matches Ok(db) ==> db_path(db) == path@,
{
    sled::open(path)
}

/// Stores `value` under `key`.
///
/// Trusted: calls `sled::Tree::insert`. Where it succeeds the database maps
/// `key` to `value` and is otherwise unchanged; where it fails nothing is
/// stated. The exclusive borrow stands for the database's interior
/// mutability: this handle is the only one the library holds. The database
/// stays the one at the same path.
#[verifier::external_body]
fn db_insert(db: &mut sled::Db, key: &[u8], value: &[u8]) -> (r: Result<(), sled::Error>)
    ensures
        db_path(*final(db)) == db_path(*old(db)),
        r is Ok ==> db_contents(*final(db)) == db_contents(*old(db)).insert(key@, value@),
{
    db.insert(key, value).map(|_| ())
}

/// The value stored under `key`, if any.
///
/// Trusted: calls `sled::Tree::get` and copies the value out. Where it
/// succeeds it gives what the database holds under `key`.
#[verifier::external_body]
fn db_get(db: &sled::Db, key: &[u8]) -> (r: Result<Option<Vec<u8>>, sled::Error>)
    ensures
        r matches Ok(v) ==> match v {
            Some(bytes) => db_contents(*db).contains_key(key@) && db_contents(*db)[key@]
                == bytes@,
            None => !db_contents(*db).contains_key(key@),
        },
{
    db.get(key).map(|v| v.map(|bytes| bytes.to_vec()))
}

/// Writes buffered changes to disk.
///
/// Trusted: calls `sled::Tree::flush`, which does not change what the
/// database holds, nor which database it is.
#[verifier::external_body]
fn db_flush(db: &mut sled::Db) -> (r: Result<(), sled::Error>)
    ensures
        db_path(*final(db)) == db_path(*old(db)),
        db_contents(*final(db)) == db_contents(*old(db)),
{
    db.flush().map(|_| ())
}

/// The text that `bytes` encode in UTF-8.
///
/// Trusted: calls `String::from_utf8`, which succeeds exactly on valid UTF-8
/// and then holds the characters the bytes encode.
#[verifier::external_body]
fn string_from_utf8(bytes: Vec<u8>) -> (r: Result<String, String>)
    ensures
        r is Ok <==> valid_utf8(bytes@),
        r matches Ok(s) ==> s@ == decode_utf8(bytes@),
{
    String::from_utf8(bytes).map_err(|error| error.to_string())
}

/// A bookmarked address and its title.
pub struct Bookmark {
    pub url: String,
    pub title: String,
}

/// The database key of the bookmark for `url`: the UTF-8 bytes of `bookmark:<url>`.
pub open spec fn bookmark_key(url: Seq<char>) -> Seq<u8> {
    encode_utf8("bookmark:"@ + url)
}

/// Bookmarks stored in a database.
pub struct BookmarkStore {
    db: sled::Db,
}

impl BookmarkStore {
    /// What the store's database holds.
    pub closed spec fn contents(&self) -> Map<Seq<u8>, Seq<u8>> {
        db_contents(self.db)
    }

    /// The path of the store's database.
    pub closed spec fn location(&self) -> Seq<char> {
        db_path(self.db)
    }

    /// Opens the bookmark database at `path`; an error where `sled` cannot
    /// open it.
    pub fn open(path: &str) -> (r: Result<Self, String>)
        ensures
            r matches Ok(s) ==> s.location() == path@,
    {
        match db_open(path) {
            Ok(db) => Ok(BookmarkStore { db }),
            Err(error) => Err(error.to_string()),
        }
    }

    fn key(url: &str) -> (r: String)
        ensures
            r@ == "bookmark:"@ + url@,
    {
        String::from_str("bookmark:").concat(url)
    }

    /// Stores `title` as the bookmark for `url` and flushes it to disk.
    pub fn save(&mut self, url: &str, title: &str) -> (r: Result<(), String>)
        ensures
            final(self).location() == old(self).location(),
            r is Ok ==> final(self).contents() == old(self).contents().insert(
                bookmark_key(url@),
                encode_utf8(title@),
            ),
    {
        let key = Self::key(url);
        match db_insert(&mut self.db, key.as_str().as_bytes(), title.as_bytes()) {
            Ok(()) => {},
            Err(error) => return Err(error.to_string()),
        }
        match db_flush(&mut self.db) {
            Ok(()) => Ok(()),
            Err(error) => Err(error.to_string()),
        }
    }

    /// The bookmark for `url`, if one is stored.
    pub fn get(&self, url: &str) -> (r: Result<Option<Bookmark>, String>)
        ensures
            r matches Ok(found) ==> match found {
                Some(b) => {
                    &&& self.contents().contains_key(bookmark_key(url@))
                    &&& valid_utf8(self.contents()[bookmark_key(url@)])
                    &&& b.url@ == url@
                    &&& b.title@ == decode_utf8(self.contents()[bookmark_key(url@)])
                },
                None => !self.contents().contains_key(bookmark_key(url@)),
            },
            self.contents().contains_key(bookmark_key(url@)) && !valid_utf8(
                self.contents()[bookmark_key(url@)],
            ) ==> r is Err,
    {
        let key = Self::key(url);
        let record = match db_get(&self.db, key.as_str().as_bytes()) {
            Ok(record) => record,
            Err(error) => return Err(error.to_string()),
        };
        Self::bookmark_from_record(url, record)
    }

    /// The bookmark for `url` from what the database holds under its key: none
    /// where nothing is stored; the stored bytes decoded as the title where they
    /// are valid UTF-8; an error otherwise.
    pub fn bookmark_from_record(url: &str, record: Option<Vec<u8>>) -> (r: Result<Option<Bookmark>, String>)
        ensures
            match record {
                None => r matches Ok(found) && found is None,
                Some(bytes) => if valid_utf8(bytes@) {
                    r matches Ok(found) && found matches Some(b) && b.url@ == url@ && b.title@
                        == decode_utf8(bytes@)
                } else {
                    r is Err
                },
            },
    {
        match record {
            Some(value) => {
                let title = string_from_utf8(value)?;
                Ok(Some(Bookmark { url: String::from_str(url), title }))
            },
            None => Ok(None),
        }
    }
}

/// What a read gives back of a write: after storing `title` for `url`, the
/// store holds valid UTF-8 under the key of `url`, and it decodes to `title`.
pub proof fn lemma_read_after_save(m: Map<Seq<u8>, Seq<u8>>, url: Seq<char>, title: Seq<char>)
    ensures
        m.insert(bookmark_key(url), encode_utf8(title)).contains_key(bookmark_key(url)),
        valid_utf8(m.insert(bookmark_key(url), encode_utf8(title))[bookmark_key(url)]),
        decode_utf8(m.insert(bookmark_key(url), encode_utf8(title))[bookmark_key(url)]) == title,
{
    vstd::utf8::encode_utf8_valid_utf8(title);
    vstd::utf8::encode_utf8_decode_utf8(title);
}

/// Distinct addresses have distinct keys, so storing a bookmark for one
/// address leaves the bookmark of every other address as it was.
pub proof fn lemma_save_keeps_others(
    m: Map<Seq<u8>, Seq<u8>>,
    url: Seq<char>,
    other: Seq<char>,
    title: Seq<char>,
)
    requires
        url != other,
    ensures
        bookmark_key(url) != bookmark_key(other),
        m.insert(bookmark_key(url), encode_utf8(title)).contains_key(bookmark_key(other))
            == m.contains_key(bookmark_key(other)),
        m.contains_key(bookmark_key(other)) ==> m.insert(bookmark_key(url), encode_utf8(title))[
            bookmark_key(other)] == m[bookmark_key(other)],
{
    let p = "bookmark:"@;
    vstd::utf8::encode_utf8_decode_utf8(p + url);
    vstd::utf8::encode_utf8_decode_utf8(p + other);
    if bookmark_key(url) == bookmark_key(other) {
        assert(p + url == p + other);
        assert(url =~= (p + url).skip(p.len() as int));
        assert(other =~= (p + other).skip(p.len() as int));
    }
}

} // verus!
