use vstd::prelude::*;

verus! {

/// How long the remote service keeps an upload: fourteen days, in seconds.
pub const RETENTION_WINDOW: u64 = 1_209_600;

/// Whether an object uploaded at `upload_time` is still kept remotely at `now`.
pub open spec fn available_at(upload_time: int, now: int) -> bool {
    now - upload_time < RETENTION_WINDOW as int
}

/// What the remote service hands back for one upload.
#[derive(Debug, PartialEq, Eq)]
pub struct TransferResponse {
    pub transfer_link: String,
    pub delete_link: String,
}

impl Clone for TransferResponse {
    fn clone(&self) -> (r: Self)
        ensures
            r == *self,
    {
        TransferResponse {
            transfer_link: self.transfer_link.clone(),
            delete_link: self.delete_link.clone(),
        }
    }
}

/// One stored upload.
#[derive(Debug, PartialEq, Eq)]
pub struct Link {
    /// Assigned by the store, increasing, never reused.
    pub id: i64,
    pub name: String,
    /// The public retrieval URL.
    pub link: String,
    /// The one-time credential that revokes the remote object.
    pub delete_link: String,
    /// Unix seconds at insertion.
    pub unix_time: u64,
    /// Hex digest of the uploaded bytes, when one was recorded.
    pub sha256sum: Option<String>,
}

impl Clone for Link {
    fn clone(&self) -> (r: Self)
        ensures
            r == *self,
    {
        let sha256sum = match &self.sha256sum {
            Some(s) => Some(s.clone()),
            None => None,
        };
        Link {
            id: self.id,
            name: self.name.clone(),
            link: self.link.clone(),
            delete_link: self.delete_link.clone(),
            unix_time: self.unix_time,
            sha256sum,
        }
    }
}

impl Link {
    /// A record with the given fields.
    pub fn new(
        id: i64,
        name: String,
        link: String,
        delete_link: String,
        unix_time: u64,
        sha256sum: Option<String>,
    ) -> (r: Link)
        ensures
            r == (Link { id, name, link, delete_link, unix_time, sha256sum }),
    {
        Link { id, name, link, delete_link, unix_time, sha256sum }
    }

    /// Whether an object uploaded at `upload_time` is still kept at `now`.
    /// A timestamp later than `now` counts as available.
    pub fn is_link_available(upload_time: u64, now: u64) -> (r: bool)
        ensures
            r == available_at(upload_time as int, now as int),
    {
        if now < upload_time {
            true
        } else {
            now - upload_time < RETENTION_WINDOW
        }
    }

    /// Whether this record's remote object is still kept at `now`.
    pub fn is_available(&self, now: u64) -> (r: bool)
        ensures
            r == available_at(self.unix_time as int, now as int),
    {
        Link::is_link_available(self.unix_time, now)
    }

    pub fn get_delete_link(&self) -> (r: &str)
        ensures
            r@ == self.delete_link@,
    {
        self.delete_link.as_str()
    }
}

/// An upload made exactly one retention window and one second ago has
/// expired, and one made at this very moment is available.
pub proof fn lemma_retention_edges(now: int)
    ensures
        !available_at(now - RETENTION_WINDOW as int - 1, now),
        available_at(now, now),
{
}

/// Settings read from the configuration file.
#[derive(Debug, PartialEq, Eq)]
pub struct Config {
    pub database_file: String,
}

impl Config {
    /// The default settings: the database file `transfer-sh-helper.db`.
    pub fn new() -> (r: Config)
        ensures
            r.database_file@ == "transfer-sh-helper.db"@,
    {
        Config { database_file: String::from_str("transfer-sh-helper.db") }
    }

    /// Settings that name the given database file.
    pub fn with_database_file(database_file: String) -> (r: Config)
        ensures
            r.database_file == database_file,
    {
        Config { database_file }
    }

    pub fn get_database_file(&self) -> (r: &str)
        ensures
            r@ == self.database_file@,
    {
        self.database_file.as_str()
    }
}

} // verus!
