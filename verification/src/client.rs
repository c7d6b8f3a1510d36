//! The commands of the protocol as methods of a connection.

use crate::batch::Pipeline;
use crate::commands::auth_cmd;
use crate::commands::auth_exchange;
use crate::commands::cache_memlimit_cmd;
use crate::commands::cache_memlimit_exchange;
use crate::commands::delete_cmd;
use crate::commands::delete_exchange;
use crate::commands::flush_all_cmd;
use crate::commands::flush_all_exchange;
use crate::commands::incr_decr_cmd;
use crate::commands::incr_decr_exchange;
use crate::commands::lru_cmd;
use crate::commands::lru_crawler_cmd;
use crate::commands::lru_crawler_crawl_cmd;
use crate::commands::lru_crawler_crawl_exchange;
use crate::commands::lru_crawler_exchange;
use crate::commands::lru_crawler_metadump_cmd;
use crate::commands::lru_crawler_metadump_exchange;
use crate::commands::lru_crawler_mgdump_cmd;
use crate::commands::lru_crawler_mgdump_exchange;
use crate::commands::lru_crawler_sleep_cmd;
use crate::commands::lru_crawler_sleep_exchange;
use crate::commands::lru_crawler_tocrawl_cmd;
use crate::commands::lru_crawler_tocrawl_exchange;
use crate::commands::lru_exchange;
use crate::commands::ma_cmd;
use crate::commands::ma_exchange;
use crate::commands::md_cmd;
use crate::commands::md_exchange;
use crate::commands::me_cmd;
use crate::commands::me_exchange;
use crate::commands::mg_cmd;
use crate::commands::mg_exchange;
use crate::commands::mn_cmd;
use crate::commands::mn_exchange;
use crate::commands::ms_cmd;
use crate::commands::ms_exchange;
use crate::commands::quit_cmd;
use crate::commands::quit_exchange;
use crate::commands::retrieval_cmd;
use crate::commands::retrieval_exchange;
use crate::commands::shutdown_cmd;
use crate::commands::shutdown_exchange;
use crate::commands::single_cmd;
use crate::commands::single_exchange;
use crate::commands::slabs_automove_cmd;
use crate::commands::slabs_automove_exchange;
use crate::commands::slabs_reassign_cmd;
use crate::commands::slabs_reassign_exchange;
use crate::commands::stats_cmd;
use crate::commands::stats_exchange;
use crate::commands::storage_cmd;
use crate::commands::storage_exchange;
use crate::commands::touch_cmd;
use crate::commands::touch_exchange;
use crate::commands::version_cmd;
use crate::commands::version_exchange;
use crate::commands::watch_cmd;
use crate::commands::watch_exchange;
use crate::decode::message_reply;
use crate::decode::parse_message_rp;
use crate::encode::slices;
use crate::model::outcome;
use crate::model::Error;
use crate::model::Model;
use crate::stream::Connection;
use crate::stream::Wire;
use crate::text::b;
use crate::types::Item;
use crate::types::LruArg;
use crate::types::LruCrawlerArg;
use crate::types::LruCrawlerCrawlArg;
use crate::types::LruCrawlerMetadumpArg;
use crate::types::LruCrawlerMgdumpArg;
use crate::types::MaFlag;
use crate::types::MaItem;
use crate::types::MdFlag;
use crate::types::MdItem;
use crate::types::MgFlag;
use crate::types::MgItem;
use crate::types::MsFlag;
use crate::types::MsItem;
use crate::types::SlabsAutomoveArg;
use crate::types::StatsArg;
use crate::types::WatchArg;
use vstd::prelude::*;

verus! {

impl Connection {
    /// Asks for the version of the server.
    pub fn version(&mut self) -> (r: Result<String, Error>)
        ensures
            (outcome(r), final(self)@) == version_exchange(old(self)@),
    {
        version_cmd(self)
    }

    /// Asks the server to close the connection. No reply is read.
    pub fn quit(&mut self) -> (r: Result<(), Error>)
        ensures
            (outcome(r), final(self)@) == quit_exchange(old(self)@),
    {
        quit_cmd(self)
    }

    /// Asks the server to shut down. No reply is read.
    pub fn shutdown(&mut self, graceful: bool) -> (r: Result<(), Error>)
        ensures
            (outcome(r), final(self)@) == shutdown_exchange(old(self)@, graceful),
    {
        shutdown_cmd(self, graceful)
    }

    /// Sets the memory limit of the cache, in megabytes.
    pub fn cache_memlimit(&mut self, limit: usize, noreply: bool) -> (r: Result<(), Error>)
        ensures
            (outcome(r), final(self)@) == cache_memlimit_exchange(old(self)@, limit, noreply),
    {
        cache_memlimit_cmd(self, limit, noreply)
    }

    /// Invalidates every entry, at once or after a delay.
    pub fn flush_all(&mut self, exptime: Option<i64>, noreply: bool) -> (r: Result<(), Error>)
        ensures
            (outcome(r), final(self)@) == flush_all_exchange(old(self)@, exptime, noreply),
    {
        flush_all_cmd(self, exptime, noreply)
    }

    /// Stores data under a key.
    pub fn set(
        &mut self,
        key: &[u8],
        flags: u32,
        exptime: i64,
        noreply: bool,
        data_block: &[u8],
    ) -> (r: Result<bool, Error>)
        ensures
            (outcome(r), final(self)@) == storage_exchange(
                old(self)@,
                b("set"),
                key@,
                flags,
                exptime,
                None,
                noreply,
                data_block@,
            ),
    {
        storage_cmd(self, "set".as_bytes(), key, flags, exptime, None, noreply, data_block)
    }

    /// Stores data under a key that does not exist yet.
    pub fn add(
        &mut self,
        key: &[u8],
        flags: u32,
        exptime: i64,
        noreply: bool,
        data_block: &[u8],
    ) -> (r: Result<bool, Error>)
        ensures
            (outcome(r), final(self)@) == storage_exchange(
                old(self)@,
                b("add"),
                key@,
                flags,
                exptime,
                None,
                noreply,
                data_block@,
            ),
    {
        storage_cmd(self, "add".as_bytes(), key, flags, exptime, None, noreply, data_block)
    }

    /// Stores data under a key that exists.
    pub fn replace(
        &mut self,
        key: &[u8],
        flags: u32,
        exptime: i64,
        noreply: bool,
        data_block: &[u8],
    ) -> (r: Result<bool, Error>)
        ensures
            (outcome(r), final(self)@) == storage_exchange(
                old(self)@,
                b("replace"),
                key@,
                flags,
                exptime,
                None,
                noreply,
                data_block@,
            ),
    {
        storage_cmd(self, "replace".as_bytes(), key, flags, exptime, None, noreply, data_block)
    }

    /// Adds data behind the data of a key.
    pub fn append(
        &mut self,
        key: &[u8],
        flags: u32,
        exptime: i64,
        noreply: bool,
        data_block: &[u8],
    ) -> (r: Result<bool, Error>)
        ensures
            (outcome(r), final(self)@) == storage_exchange(
                old(self)@,
                b("append"),
                key@,
                flags,
                exptime,
                None,
                noreply,
                data_block@,
            ),
    {
        storage_cmd(self, "append".as_bytes(), key, flags, exptime, None, noreply, data_block)
    }

    /// Adds data before the data of a key.
    pub fn prepend(
        &mut self,
        key: &[u8],
        flags: u32,
        exptime: i64,
        noreply: bool,
        data_block: &[u8],
    ) -> (r: Result<bool, Error>)
        ensures
            (outcome(r), final(self)@) == storage_exchange(
                old(self)@,
                b("prepend"),
                key@,
                flags,
                exptime,
                None,
                noreply,
                data_block@,
            ),
    {
        storage_cmd(self, "prepend".as_bytes(), key, flags, exptime, None, noreply, data_block)
    }

    /// Stores data under a key if its CAS token is still the one given.
    pub fn cas(
        &mut self,
        key: &[u8],
        flags: u32,
        exptime: i64,
        cas_unique: u64,
        noreply: bool,
        data_block: &[u8],
    ) -> (r: Result<bool, Error>)
        ensures
            (outcome(r), final(self)@) == storage_exchange(
                old(self)@,
                b("cas"),
                key@,
                flags,
                exptime,
                Some(cas_unique),
                noreply,
                data_block@,
            ),
    {
        storage_cmd(
            self,
            "cas".as_bytes(),
            key,
            flags,
            exptime,
            Some(cas_unique),
            noreply,
            data_block,
        )
    }

    /// Authenticates with a user name and a password.
    pub fn auth(&mut self, username: &[u8], password: &[u8]) -> (r: Result<(), Error>)
        ensures
            (outcome(r), final(self)@) == auth_exchange(old(self)@, username@, password@),
    {
        auth_cmd(self, username, password)
    }

    /// Deletes a key.
    pub fn delete(&mut self, key: &[u8], noreply: bool) -> (r: Result<bool, Error>)
        ensures
            (outcome(r), final(self)@) == delete_exchange(old(self)@, key@, noreply),
    {
        delete_cmd(self, key, noreply)
    }

    /// Adds to the number under a key.
    pub fn incr(&mut self, key: &[u8], value: u64, noreply: bool) -> (r: Result<Option<u64>, Error>)
        ensures
            (outcome(r), final(self)@) == incr_decr_exchange(
                old(self)@,
                b("incr"),
                key@,
                value,
                noreply,
            ),
    {
        incr_decr_cmd(self, "incr".as_bytes(), key, value, noreply)
    }

    /// Takes from the number under a key.
    pub fn decr(&mut self, key: &[u8], value: u64, noreply: bool) -> (r: Result<Option<u64>, Error>)
        ensures
            (outcome(r), final(self)@) == incr_decr_exchange(
                old(self)@,
                b("decr"),
                key@,
                value,
                noreply,
            ),
    {
        incr_decr_cmd(self, "decr".as_bytes(), key, value, noreply)
    }

    /// Sets the expiry of a key.
    pub fn touch(&mut self, key: &[u8], exptime: i64, noreply: bool) -> (r: Result<bool, Error>)
        ensures
            (outcome(r), final(self)@) == touch_exchange(old(self)@, key@, exptime, noreply),
    {
        touch_cmd(self, key, exptime, noreply)
    }

    /// Fetches the entry under a key.
    pub fn get(&mut self, key: &[u8]) -> (r: Result<Option<Item>, Error>)
        ensures
            (outcome(r), final(self)@) == single_exchange(old(self)@, b("get"), None, key@),
    {
        single_cmd(self, "get".as_bytes(), None, key)
    }

    /// Fetches the entry under a key, with its CAS token.
    pub fn gets(&mut self, key: &[u8]) -> (r: Result<Option<Item>, Error>)
        ensures
            (outcome(r), final(self)@) == single_exchange(old(self)@, b("gets"), None, key@),
    {
        single_cmd(self, "gets".as_bytes(), None, key)
    }

    /// Fetches the entry under a key and sets its expiry.
    pub fn gat(&mut self, exptime: i64, key: &[u8]) -> (r: Result<Option<Item>, Error>)
        ensures
            (outcome(r), final(self)@) == single_exchange(
                old(self)@,
                b("gat"),
                Some(exptime),
                key@,
            ),
    {
        single_cmd(self, "gat".as_bytes(), Some(exptime), key)
    }

    /// Fetches the entry under a key, with its CAS token, and sets its expiry.
    pub fn gats(&mut self, exptime: i64, key: &[u8]) -> (r: Result<Option<Item>, Error>)
        ensures
            (outcome(r), final(self)@) == single_exchange(
                old(self)@,
                b("gats"),
                Some(exptime),
                key@,
            ),
    {
        single_cmd(self, "gats".as_bytes(), Some(exptime), key)
    }

    /// Fetches the entries under some keys.
    pub fn get_multi(&mut self, keys: &[&[u8]]) -> (r: Result<Vec<Item>, Error>)
        ensures
            (outcome(r), final(self)@) == retrieval_exchange(
                old(self)@,
                b("get"),
                None,
                slices(keys@),
            ),
    {
        retrieval_cmd(self, "get".as_bytes(), None, keys)
    }

    /// Fetches the entries under some keys, with their CAS tokens.
    pub fn gets_multi(&mut self, keys: &[&[u8]]) -> (r: Result<Vec<Item>, Error>)
        ensures
            (outcome(r), final(self)@) == retrieval_exchange(
                old(self)@,
                b("gets"),
                None,
                slices(keys@),
            ),
    {
        retrieval_cmd(self, "gets".as_bytes(), None, keys)
    }

    /// Fetches the entries under some keys and sets their expiry.
    pub fn gat_multi(&mut self, exptime: i64, keys: &[&[u8]]) -> (r: Result<Vec<Item>, Error>)
        ensures
            (outcome(r), final(self)@) == retrieval_exchange(
                old(self)@,
                b("gat"),
                Some(exptime),
                slices(keys@),
            ),
    {
        retrieval_cmd(self, "gat".as_bytes(), Some(exptime), keys)
    }

    /// Fetches the entries under some keys, with their CAS tokens, and sets their expiry.
    pub fn gats_multi(&mut self, exptime: i64, keys: &[&[u8]]) -> (r: Result<Vec<Item>, Error>)
        ensures
            (outcome(r), final(self)@) == retrieval_exchange(
                old(self)@,
                b("gats"),
                Some(exptime),
                slices(keys@),
            ),
    {
        retrieval_cmd(self, "gats".as_bytes(), Some(exptime), keys)
    }

    /// Asks for statistics: names and values, each name once, in the order in
    /// which the names first came.
    pub fn stats(&mut self, arg: Option<StatsArg>) -> (r: Result<Vec<(String, String)>, Error>)
        ensures
            (outcome(r), final(self)@) == stats_exchange(old(self)@, arg),
    {
        stats_cmd(self, arg)
    }

    /// Sets how eagerly memory moves between slab classes.
    pub fn slabs_automove(&mut self, arg: SlabsAutomoveArg) -> (r: Result<(), Error>)
        ensures
            (outcome(r), final(self)@) == slabs_automove_exchange(old(self)@, arg),
    {
        slabs_automove_cmd(self, arg)
    }

    /// Switches the background crawler on or off.
    pub fn lru_crawler(&mut self, arg: LruCrawlerArg) -> (r: Result<(), Error>)
        ensures
            (outcome(r), final(self)@) == lru_crawler_exchange(old(self)@, arg),
    {
        lru_crawler_cmd(self, arg)
    }

    /// Sets how long the crawler sleeps between items.
    pub fn lru_crawler_sleep(&mut self, microseconds: usize) -> (r: Result<(), Error>)
        ensures
            (outcome(r), final(self)@) == lru_crawler_sleep_exchange(old(self)@, microseconds),
    {
        lru_crawler_sleep_cmd(self, microseconds)
    }

    /// Sets how many items the crawler inspects per run.
    pub fn lru_crawler_tocrawl(&mut self, arg: u32) -> (r: Result<(), Error>)
        ensures
            (outcome(r), final(self)@) == lru_crawler_tocrawl_exchange(old(self)@, arg),
    {
        lru_crawler_tocrawl_cmd(self, arg)
    }

    /// Starts a crawl.
    pub fn lru_crawler_crawl(&mut self, arg: LruCrawlerCrawlArg<'_>) -> (r: Result<(), Error>)
        ensures
            (outcome(r), final(self)@) == lru_crawler_crawl_exchange(old(self)@, arg),
    {
        lru_crawler_crawl_cmd(self, arg)
    }

    /// Moves a page of memory from one slab class to another.
    pub fn slabs_reassign(
        &mut self,
        source_class: usize,
        dest_class: usize,
    ) -> (r: Result<(), Error>)
        ensures
            (outcome(r), final(self)@) == slabs_reassign_exchange(
                old(self)@,
                source_class,
                dest_class,
            ),
    {
        slabs_reassign_cmd(self, source_class, dest_class)
    }

    /// Dumps the metadata of items, one line for each.
    pub fn lru_crawler_metadump(
        &mut self,
        arg: LruCrawlerMetadumpArg<'_>,
    ) -> (r: Result<Vec<String>, Error>)
        ensures
            (outcome(r), final(self)@) == lru_crawler_metadump_exchange(old(self)@, arg),
    {
        lru_crawler_metadump_cmd(self, arg)
    }

    /// Dumps keys.
    pub fn lru_crawler_mgdump(
        &mut self,
        arg: LruCrawlerMgdumpArg<'_>,
    ) -> (r: Result<Vec<String>, Error>)
        ensures
            (outcome(r), final(self)@) == lru_crawler_mgdump_exchange(old(self)@, arg),
    {
        lru_crawler_mgdump_cmd(self, arg)
    }

    /// Sends the meta no-op.
    pub fn mn(&mut self) -> (r: Result<(), Error>)
        ensures
            (outcome(r), final(self)@) == mn_exchange(old(self)@),
    {
        mn_cmd(self)
    }

    /// Asks for the debug line of a key.
    pub fn me(&mut self, key: &[u8]) -> (r: Result<Option<String>, Error>)
        ensures
            (outcome(r), final(self)@) == me_exchange(old(self)@, key@),
    {
        me_cmd(self, key)
    }

    /// Asks the server to stream events of some kinds, and hands the
    /// connection over as the stream of those events. Where the server
    /// refuses, the connection is given up.
    pub fn watch(self, arg: &[WatchArg]) -> (r: Result<WatchStream, Error>)
        ensures
            match watch_exchange(self@, arg@) {
                (Ok(_), after) => r is Ok && r->Ok_0@ == after,
                (Err(f), _) => r is Err && r->Err_0.model() == f,
            },
    {
        let mut conn = self;
        match watch_cmd(&mut conn, arg) {
            Ok(_) => Ok(WatchStream(conn)),
            Err(e) => Err(e),
        }
    }

    /// Opens a batch of commands for this connection.
    pub fn pipeline(&mut self) -> (r: Pipeline<'_>)
        ensures
            r.commands() == Seq::<Seq<u8>>::empty(),
            *r.0 == *old(self),
            *final(self) == *final(r.0),
    {
        Pipeline::new(self)
    }

    /// Sends a meta get.
    pub fn mg(&mut self, key: &[u8], flags: &[MgFlag]) -> (r: Result<MgItem, Error>)
        ensures
            (outcome(r), final(self)@) == mg_exchange(old(self)@, key@, flags@),
    {
        mg_cmd(self, key, flags)
    }

    /// Sends a meta set.
    pub fn ms(
        &mut self,
        key: &[u8],
        flags: &[MsFlag],
        data_block: &[u8],
    ) -> (r: Result<MsItem, Error>)
        ensures
            (outcome(r), final(self)@) == ms_exchange(old(self)@, key@, flags@, data_block@),
    {
        ms_cmd(self, key, flags, data_block)
    }

    /// Sends a meta delete.
    pub fn md(&mut self, key: &[u8], flags: &[MdFlag]) -> (r: Result<MdItem, Error>)
        ensures
            (outcome(r), final(self)@) == md_exchange(old(self)@, key@, flags@),
    {
        md_cmd(self, key, flags)
    }

    /// Sends a meta arithmetic.
    pub fn ma(&mut self, key: &[u8], flags: &[MaFlag]) -> (r: Result<MaItem, Error>)
        ensures
            (outcome(r), final(self)@) == ma_exchange(old(self)@, key@, flags@),
    {
        ma_cmd(self, key, flags)
    }

    /// Changes a setting of the LRU.
    pub fn lru(&mut self, arg: LruArg) -> (r: Result<(), Error>)
        ensures
            (outcome(r), final(self)@) == lru_exchange(old(self)@, arg),
    {
        lru_cmd(self, arg)
    }

}

/// A connection that streams the events that a `watch` asked for.
pub struct WatchStream(pub Connection);

impl View for WatchStream {
    type V = Wire;

    open spec fn view(&self) -> Wire {
        self.0@
    }
}

impl WatchStream {
    /// Reads the next event: a line without its terminator, or nothing once
    /// the stream has ended.
    pub fn message(&mut self) -> (r: Result<Option<String>, Error>)
        ensures
            (outcome(r), final(self)@) == message_reply(old(self)@),
    {
        parse_message_rp(&mut self.0)
    }
}

} // verus!
