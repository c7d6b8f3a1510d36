//! Batches under construction: commands are rendered as they are added, and
//! sent together.

use crate::commands::build_single_cmd;
use crate::encode::auth_request;
use crate::encode::build_auth_cmd;
use crate::encode::build_cache_memlimit_cmd;
use crate::encode::build_delete_cmd;
use crate::encode::build_flush_all_cmd;
use crate::encode::build_incr_decr_cmd;
use crate::encode::build_lru_cmd;
use crate::encode::build_lru_crawler_cmd;
use crate::encode::build_lru_crawler_crawl_cmd;
use crate::encode::build_lru_crawler_metadump_cmd;
use crate::encode::build_lru_crawler_mgdump_cmd;
use crate::encode::build_lru_crawler_sleep_cmd;
use crate::encode::build_lru_crawler_tocrawl_cmd;
use crate::encode::build_ma_flags;
use crate::encode::build_mc_cmd;
use crate::encode::build_md_flags;
use crate::encode::build_me_cmd;
use crate::encode::build_mg_flags;
use crate::encode::build_mn_cmd;
use crate::encode::build_ms_flags;
use crate::encode::build_quit_cmd;
use crate::encode::build_retrieval_cmd;
use crate::encode::build_shutdown_cmd;
use crate::encode::build_slabs_automove_cmd;
use crate::encode::build_slabs_reassign_cmd;
use crate::encode::build_stats_cmd;
use crate::encode::build_storage_cmd;
use crate::encode::build_touch_cmd;
use crate::encode::build_version_cmd;
use crate::encode::cache_memlimit_request;
use crate::encode::delete_request;
use crate::encode::flush_all_request;
use crate::encode::incr_decr_request;
use crate::encode::lru_crawler_crawl_request;
use crate::encode::lru_crawler_metadump_request;
use crate::encode::lru_crawler_mgdump_request;
use crate::encode::lru_crawler_request;
use crate::encode::lru_crawler_sleep_request;
use crate::encode::lru_crawler_tocrawl_request;
use crate::encode::lru_request;
use crate::encode::ma_flags_text;
use crate::encode::mc_request;
use crate::encode::md_flags_text;
use crate::encode::me_request;
use crate::encode::mg_flags_text;
use crate::encode::mn_request;
use crate::encode::ms_flags_text;
use crate::encode::quit_request;
use crate::encode::retrieval_request;
use crate::encode::shutdown_request;
use crate::encode::slabs_automove_request;
use crate::encode::slabs_reassign_request;
use crate::encode::slices;
use crate::encode::stats_request;
use crate::encode::storage_request;
use crate::encode::touch_request;
use crate::encode::version_request;
use crate::model::outcome;
use crate::model::Error;
use crate::pipeline::execute_cmd;
use crate::pipeline::execute_exchange;
use crate::stream::Connection;
use crate::text::b;
use crate::text::views;
use crate::types::LruArg;
use crate::types::LruCrawlerArg;
use crate::types::LruCrawlerCrawlArg;
use crate::types::LruCrawlerMetadumpArg;
use crate::types::LruCrawlerMgdumpArg;
use crate::types::MaFlag;
use crate::types::MdFlag;
use crate::types::MgFlag;
use crate::types::MsFlag;
use crate::types::PipelineResponse;
use crate::types::SlabsAutomoveArg;
use crate::types::StatsArg;
use vstd::prelude::*;
use vstd::slice::slice_to_vec;

verus! {

/// A batch of commands for one connection. The commands stand in the order
/// in which they were added; nothing is written before `execute`.
pub struct Pipeline<'a>(pub &'a mut Connection, pub Vec<Vec<u8>>);

impl<'a> Pipeline<'a> {
    /// The commands of the batch, in order.
    pub open spec fn commands(self) -> Seq<Seq<u8>> {
        views(self.1@)
    }

    /// Whether this batch is `before` with one command more, for the same
    /// connection.
    pub open spec fn extends(self, before: Self, cmd: Seq<u8>) -> bool {
        &&& self.commands() == before.commands().push(cmd)
        &&& self.0 == before.0
    }

    /// An empty batch for a connection.
    pub fn new(conn: &'a mut Connection) -> (r: Self)
        ensures
            r.commands() == Seq::<Seq<u8>>::empty(),
            *r.0 == *old(conn),
            *final(conn) == *final(r.0),
    {
        let p = Pipeline(conn, Vec::new());
        assert(p.commands() =~= Seq::<Seq<u8>>::empty());
        p
    }

    fn push(self, cmd: Vec<u8>) -> (r: Self)
        ensures
            r.extends(self, cmd@),
    {
        let mut me = self;
        me.1.push(cmd);
        assert(me.commands() =~= self.commands().push(cmd@));
        me
    }

    /// Sends the batch and reads one response for each command, in order.
    /// The first reply that fails ends the batch with its error. An empty
    /// batch leaves the connection as it is.
    pub fn execute(self) -> (r: Result<Vec<PipelineResponse>, Error>)
        ensures
            (outcome(r), final(self.0)@) == execute_exchange(old(self.0)@, self.commands()),
    {
        execute_cmd(self.0, self.1.as_slice())
    }

    /// Adds a command to the batch. Asks for the version of the server.
    pub fn version(self) -> (r: Self)
        ensures
            r.extends(self, version_request()),
    {
        self.push(slice_to_vec(build_version_cmd()))
    }

    /// Adds a command to the batch. Asks the server to close the connection. No reply is read.
    pub fn quit(self) -> (r: Self)
        ensures
            r.extends(self, quit_request()),
    {
        self.push(slice_to_vec(build_quit_cmd()))
    }

    /// Adds a command to the batch. Asks the server to shut down. No reply is read.
    pub fn shutdown(self, graceful: bool) -> (r: Self)
        ensures
            r.extends(self, shutdown_request(graceful)),
    {
        self.push(slice_to_vec(build_shutdown_cmd(graceful)))
    }

    /// Adds a command to the batch. Sets the memory limit of the cache, in megabytes.
    pub fn cache_memlimit(self, limit: usize, noreply: bool) -> (r: Self)
        ensures
            r.extends(self, cache_memlimit_request(limit, noreply)),
    {
        self.push(build_cache_memlimit_cmd(limit, noreply))
    }

    /// Adds a command to the batch. Invalidates every entry, at once or after a delay.
    pub fn flush_all(self, exptime: Option<i64>, noreply: bool) -> (r: Self)
        ensures
            r.extends(self, flush_all_request(exptime, noreply)),
    {
        self.push(build_flush_all_cmd(exptime, noreply))
    }

    /// Adds a command to the batch. Stores data under a key.
    pub fn set(
        self,
        key: &[u8],
        flags: u32,
        exptime: i64,
        noreply: bool,
        data_block: &[u8],
    ) -> (r: Self)
        ensures
            r.extends(
                self,
                storage_request(b("set"), key@, flags, exptime, None, noreply, data_block@),
            ),
    {
        self.push(
            build_storage_cmd("set".as_bytes(), key, flags, exptime, None, noreply, data_block),
        )
    }

    /// Adds a command to the batch. Stores data under a key that does not exist yet.
    pub fn add(
        self,
        key: &[u8],
        flags: u32,
        exptime: i64,
        noreply: bool,
        data_block: &[u8],
    ) -> (r: Self)
        ensures
            r.extends(
                self,
                storage_request(b("add"), key@, flags, exptime, None, noreply, data_block@),
            ),
    {
        self.push(
            build_storage_cmd("add".as_bytes(), key, flags, exptime, None, noreply, data_block),
        )
    }

    /// Adds a command to the batch. Stores data under a key that exists.
    pub fn replace(
        self,
        key: &[u8],
        flags: u32,
        exptime: i64,
        noreply: bool,
        data_block: &[u8],
    ) -> (r: Self)
        ensures
            r.extends(
                self,
                storage_request(b("replace"), key@, flags, exptime, None, noreply, data_block@),
            ),
    {
        self.push(
            build_storage_cmd("replace".as_bytes(), key, flags, exptime, None, noreply, data_block),
        )
    }

    /// Adds a command to the batch. Adds data behind the data of a key.
    pub fn append(
        self,
        key: &[u8],
        flags: u32,
        exptime: i64,
        noreply: bool,
        data_block: &[u8],
    ) -> (r: Self)
        ensures
            r.extends(
                self,
                storage_request(b("append"), key@, flags, exptime, None, noreply, data_block@),
            ),
    {
        self.push(
            build_storage_cmd("append".as_bytes(), key, flags, exptime, None, noreply, data_block),
        )
    }

    /// Adds a command to the batch. Adds data before the data of a key.
    pub fn prepend(
        self,
        key: &[u8],
        flags: u32,
        exptime: i64,
        noreply: bool,
        data_block: &[u8],
    ) -> (r: Self)
        ensures
            r.extends(
                self,
                storage_request(b("prepend"), key@, flags, exptime, None, noreply, data_block@),
            ),
    {
        self.push(
            build_storage_cmd("prepend".as_bytes(), key, flags, exptime, None, noreply, data_block),
        )
    }

    /// Adds a command to the batch. Stores data under a key if its CAS token
    /// is still the one given.
    pub fn cas(
        self,
        key: &[u8],
        flags: u32,
        exptime: i64,
        cas_unique: u64,
        noreply: bool,
        data_block: &[u8],
    ) -> (r: Self)
        ensures
            r.extends(
                self,
                storage_request(
                    b("cas"),
                    key@,
                    flags,
                    exptime,
                    Some(cas_unique),
                    noreply,
                    data_block@,
                ),
            ),
    {
        self.push(
            build_storage_cmd(
                "cas".as_bytes(),
                key,
                flags,
                exptime,
                Some(cas_unique),
                noreply,
                data_block,
            ),
        )
    }

    /// Adds a command to the batch. Authenticates with a user name and a password.
    pub fn auth(self, username: &[u8], password: &[u8]) -> (r: Self)
        ensures
            r.extends(self, auth_request(username@, password@)),
    {
        self.push(build_auth_cmd(username, password))
    }

    /// Adds a command to the batch. Deletes a key.
    pub fn delete(self, key: &[u8], noreply: bool) -> (r: Self)
        ensures
            r.extends(self, delete_request(key@, noreply)),
    {
        self.push(build_delete_cmd(key, noreply))
    }

    /// Adds a command to the batch. Adds to the number under a key.
    pub fn incr(self, key: &[u8], value: u64, noreply: bool) -> (r: Self)
        ensures
            r.extends(self, incr_decr_request(b("incr"), key@, value, noreply)),
    {
        self.push(build_incr_decr_cmd("incr".as_bytes(), key, value, noreply))
    }

    /// Adds a command to the batch. Takes from the number under a key.
    pub fn decr(self, key: &[u8], value: u64, noreply: bool) -> (r: Self)
        ensures
            r.extends(self, incr_decr_request(b("decr"), key@, value, noreply)),
    {
        self.push(build_incr_decr_cmd("decr".as_bytes(), key, value, noreply))
    }

    /// Adds a command to the batch. Sets the expiry of a key.
    pub fn touch(self, key: &[u8], exptime: i64, noreply: bool) -> (r: Self)
        ensures
            r.extends(self, touch_request(key@, exptime, noreply)),
    {
        self.push(build_touch_cmd(key, exptime, noreply))
    }

    /// Adds a command to the batch. Fetches the entry under a key.
    pub fn get(self, key: &[u8]) -> (r: Self)
        ensures
            r.extends(self, retrieval_request(b("get"), None, seq![key@])),
    {
        self.push(build_single_cmd("get".as_bytes(), None, key))
    }

    /// Adds a command to the batch. Fetches the entry under a key, with its CAS token.
    pub fn gets(self, key: &[u8]) -> (r: Self)
        ensures
            r.extends(self, retrieval_request(b("gets"), None, seq![key@])),
    {
        self.push(build_single_cmd("gets".as_bytes(), None, key))
    }

    /// Adds a command to the batch. Fetches the entry under a key and sets its expiry.
    pub fn gat(self, exptime: i64, key: &[u8]) -> (r: Self)
        ensures
            r.extends(self, retrieval_request(b("gat"), Some(exptime), seq![key@])),
    {
        self.push(build_single_cmd("gat".as_bytes(), Some(exptime), key))
    }

    /// Adds a command to the batch. Fetches the entry under a key, with its
    /// CAS token, and sets its expiry.
    pub fn gats(self, exptime: i64, key: &[u8]) -> (r: Self)
        ensures
            r.extends(self, retrieval_request(b("gats"), Some(exptime), seq![key@])),
    {
        self.push(build_single_cmd("gats".as_bytes(), Some(exptime), key))
    }

    /// Adds a command to the batch. Fetches the entries under some keys.
    pub fn get_multi(self, keys: &[&[u8]]) -> (r: Self)
        ensures
            r.extends(self, retrieval_request(b("get"), None, slices(keys@))),
    {
        self.push(build_retrieval_cmd("get".as_bytes(), None, keys))
    }

    /// Adds a command to the batch. Fetches the entries under some keys, with their CAS tokens.
    pub fn gets_multi(self, keys: &[&[u8]]) -> (r: Self)
        ensures
            r.extends(self, retrieval_request(b("gets"), None, slices(keys@))),
    {
        self.push(build_retrieval_cmd("gets".as_bytes(), None, keys))
    }

    /// Adds a command to the batch. Fetches the entries under some keys and sets their expiry.
    pub fn gat_multi(self, exptime: i64, keys: &[&[u8]]) -> (r: Self)
        ensures
            r.extends(self, retrieval_request(b("gat"), Some(exptime), slices(keys@))),
    {
        self.push(build_retrieval_cmd("gat".as_bytes(), Some(exptime), keys))
    }

    /// Adds a command to the batch. Fetches the entries under some keys, with
    /// their CAS tokens, and sets their expiry.
    pub fn gats_multi(self, exptime: i64, keys: &[&[u8]]) -> (r: Self)
        ensures
            r.extends(self, retrieval_request(b("gats"), Some(exptime), slices(keys@))),
    {
        self.push(build_retrieval_cmd("gats".as_bytes(), Some(exptime), keys))
    }

    /// Adds a command to the batch. Asks for statistics: names and values,
    /// each name once, in the order in which the names first came.
    pub fn stats(self, arg: Option<StatsArg>) -> (r: Self)
        ensures
            r.extends(self, stats_request(arg)),
    {
        self.push(build_stats_cmd(arg))
    }

    /// Adds a command to the batch. Sets how eagerly memory moves between slab classes.
    pub fn slabs_automove(self, arg: SlabsAutomoveArg) -> (r: Self)
        ensures
            r.extends(self, slabs_automove_request(arg)),
    {
        self.push(build_slabs_automove_cmd(arg))
    }

    /// Adds a command to the batch. Switches the background crawler on or off.
    pub fn lru_crawler(self, arg: LruCrawlerArg) -> (r: Self)
        ensures
            r.extends(self, lru_crawler_request(arg)),
    {
        self.push(slice_to_vec(build_lru_crawler_cmd(arg)))
    }

    /// Adds a command to the batch. Sets how long the crawler sleeps between items.
    pub fn lru_crawler_sleep(self, microseconds: usize) -> (r: Self)
        ensures
            r.extends(self, lru_crawler_sleep_request(microseconds)),
    {
        self.push(build_lru_crawler_sleep_cmd(microseconds))
    }

    /// Adds a command to the batch. Sets how many items the crawler inspects per run.
    pub fn lru_crawler_tocrawl(self, arg: u32) -> (r: Self)
        ensures
            r.extends(self, lru_crawler_tocrawl_request(arg)),
    {
        self.push(build_lru_crawler_tocrawl_cmd(arg))
    }

    /// Adds a command to the batch. Starts a crawl.
    pub fn lru_crawler_crawl(self, arg: LruCrawlerCrawlArg<'_>) -> (r: Self)
        ensures
            r.extends(self, lru_crawler_crawl_request(arg)),
    {
        self.push(build_lru_crawler_crawl_cmd(arg))
    }

    /// Adds a command to the batch. Moves a page of memory from one slab class to another.
    pub fn slabs_reassign(self, source_class: usize, dest_class: usize) -> (r: Self)
        ensures
            r.extends(self, slabs_reassign_request(source_class, dest_class)),
    {
        self.push(build_slabs_reassign_cmd(source_class, dest_class))
    }

    /// Adds a command to the batch. Dumps the metadata of items, one line for each.
    pub fn lru_crawler_metadump(self, arg: LruCrawlerMetadumpArg<'_>) -> (r: Self)
        ensures
            r.extends(self, lru_crawler_metadump_request(arg)),
    {
        self.push(build_lru_crawler_metadump_cmd(arg))
    }

    /// Adds a command to the batch. Dumps keys.
    pub fn lru_crawler_mgdump(self, arg: LruCrawlerMgdumpArg<'_>) -> (r: Self)
        ensures
            r.extends(self, lru_crawler_mgdump_request(arg)),
    {
        self.push(build_lru_crawler_mgdump_cmd(arg))
    }

    /// Adds a command to the batch. Sends the meta no-op.
    pub fn mn(self) -> (r: Self)
        ensures
            r.extends(self, mn_request()),
    {
        self.push(slice_to_vec(build_mn_cmd()))
    }

    /// Adds a command to the batch. Asks for the debug line of a key.
    pub fn me(self, key: &[u8]) -> (r: Self)
        ensures
            r.extends(self, me_request(key@)),
    {
        self.push(build_me_cmd(key))
    }

    /// Adds a command to the batch. Sends a meta get.
    pub fn mg(self, key: &[u8], flags: &[MgFlag]) -> (r: Self)
        ensures
            r.extends(self, mc_request(b("mg"), key@, mg_flags_text(flags@), None)),
    {
        self.push(build_mc_cmd("mg".as_bytes(), key, build_mg_flags(flags).as_slice(), None))
    }

    /// Adds a command to the batch. Sends a meta set.
    pub fn ms(self, key: &[u8], flags: &[MsFlag], data_block: &[u8]) -> (r: Self)
        ensures
            r.extends(self, mc_request(b("ms"), key@, ms_flags_text(flags@), Some(data_block@))),
    {
        self.push(
            build_mc_cmd("ms".as_bytes(), key, build_ms_flags(flags).as_slice(), Some(data_block)),
        )
    }

    /// Adds a command to the batch. Sends a meta delete.
    pub fn md(self, key: &[u8], flags: &[MdFlag]) -> (r: Self)
        ensures
            r.extends(self, mc_request(b("md"), key@, md_flags_text(flags@), None)),
    {
        self.push(build_mc_cmd("md".as_bytes(), key, build_md_flags(flags).as_slice(), None))
    }

    /// Adds a command to the batch. Sends a meta arithmetic.
    pub fn ma(self, key: &[u8], flags: &[MaFlag]) -> (r: Self)
        ensures
            r.extends(self, mc_request(b("ma"), key@, ma_flags_text(flags@), None)),
    {
        self.push(build_mc_cmd("ma".as_bytes(), key, build_ma_flags(flags).as_slice(), None))
    }

    /// Adds a command to the batch. Changes a setting of the LRU.
    pub fn lru(self, arg: LruArg) -> (r: Self)
        ensures
            r.extends(self, lru_request(arg)),
    {
        self.push(build_lru_cmd(arg))
    }

}

} // verus!
