use vstd::prelude::*;

use std::collections::HashMap;

verus! {

/// The URLs of the downloads currently in flight, keyed by download id.
///
/// The symbol manager reports download progress by id only; this table
/// remembers which URL an id belongs to, from the moment a connection
/// is announced until the download completes, fails or is canceled.
pub struct DownloadUrlTable {
    urls: HashMap<u64, String>,
}

impl DownloadUrlTable {
    /// The id-to-URL map in its current state.
    pub closed spec fn urls_map(&self) -> Map<u64, String> {
        self.urls@
    }

    pub fn new() -> (r: DownloadUrlTable)
        ensures
            r.urls_map() == Map::<u64, String>::empty(),
    {
        DownloadUrlTable { urls: HashMap::new() }
    }

    /// Remember the URL of a newly announced download; an id announced
    /// again replaces its old URL.
    pub fn record(&mut self, download_id: u64, url: String)
        ensures
            final(self).urls_map() == old(self).urls_map().insert(download_id, url),
    {
        self.urls.insert(download_id, url);
    }

    /// The URL of an in-flight download.
    pub fn url_for(&self, download_id: u64) -> (r: Option<&String>)
        ensures
            match r {
                Some(url) => self.urls_map().contains_key(download_id) && *url
                    == self.urls_map()[download_id],
                None => !self.urls_map().contains_key(download_id),
            },
    {
        self.urls.get(&download_id)
    }

    /// Forget a download that has completed, failed or been canceled,
    /// handing its URL back.
    pub fn take(&mut self, download_id: u64) -> (r: Option<String>)
        ensures
            final(self).urls_map() == old(self).urls_map().remove(download_id),
            match r {
                Some(url) => old(self).urls_map().contains_key(download_id) && url == old(
                    self,
                ).urls_map()[download_id],
                None => !old(self).urls_map().contains_key(download_id),
            },
    {
        self.urls.remove(&download_id)
    }

    /// How many downloads are currently in flight.
    pub fn len(&self) -> (r: usize)
        ensures
            r == self.urls_map().len(),
    {
        self.urls.len()
    }
}

} // verus!
