//! Whole exchanges: a command is written to the stream, then its reply is
//! read from it.

use crate::decode::auth_reply;
use crate::decode::delete_reply;
use crate::decode::incr_decr_reply;
use crate::decode::last_item;
use crate::decode::me_reply;
use crate::decode::metadump_reply;
use crate::decode::mgdump_reply;
use crate::decode::mn_reply;
use crate::decode::ok_reply;
use crate::decode::parse_auth_rp;
use crate::decode::parse_delete_rp;
use crate::decode::parse_incr_decr_rp;
use crate::decode::parse_lru_crawler_metadump_rp;
use crate::decode::parse_lru_crawler_mgdump_rp;
use crate::decode::parse_me_rp;
use crate::decode::parse_mn_rp;
use crate::decode::parse_ok_rp;
use crate::decode::parse_retrieval_rp;
use crate::decode::parse_stats_rp;
use crate::decode::parse_storage_rp;
use crate::decode::parse_touch_rp;
use crate::decode::parse_version_rp;
use crate::decode::retrieval_reply;
use crate::decode::stats_reply;
use crate::decode::storage_reply;
use crate::decode::take_last;
use crate::decode::touch_reply;
use crate::decode::version_reply;
use crate::encode::auth_request;
use crate::encode::build_auth_cmd;
use crate::encode::build_cache_memlimit_cmd;
use crate::encode::build_delete_cmd;
use crate::encode::build_flush_all_cmd;
use crate::encode::build_incr_decr_cmd;
use crate::encode::build_lru_cmd;
use crate::encode::build_lru_crawler_cmd;
use crate::encode::build_lru_crawler_crawl_cmd;
use crate::encode::build_lru_crawler_metadump_cmd;
use crate::encode::build_lru_crawler_mgdump_cmd;
use crate::encode::build_lru_crawler_sleep_cmd;
use crate::encode::build_lru_crawler_tocrawl_cmd;
use crate::encode::build_ma_flags;
use crate::encode::build_mc_cmd;
use crate::encode::build_md_flags;
use crate::encode::build_me_cmd;
use crate::encode::build_mg_flags;
use crate::encode::build_mn_cmd;
use crate::encode::build_ms_flags;
use crate::encode::build_quit_cmd;
use crate::encode::build_retrieval_cmd;
use crate::encode::build_shutdown_cmd;
use crate::encode::build_slabs_automove_cmd;
use crate::encode::build_slabs_reassign_cmd;
use crate::encode::build_stats_cmd;
use crate::encode::build_storage_cmd;
use crate::encode::build_touch_cmd;
use crate::encode::build_version_cmd;
use crate::encode::build_watch_cmd;
use crate::encode::cache_memlimit_request;
use crate::encode::delete_request;
use crate::encode::flush_all_request;
use crate::encode::incr_decr_request;
use crate::encode::lru_crawler_crawl_request;
use crate::encode::lru_crawler_metadump_request;
use crate::encode::lru_crawler_mgdump_request;
use crate::encode::lru_crawler_request;
use crate::encode::lru_crawler_sleep_request;
use crate::encode::lru_crawler_tocrawl_request;
use crate::encode::lru_request;
use crate::encode::ma_flags_text;
use crate::encode::mc_request;
use crate::encode::md_flags_text;
use crate::encode::me_request;
use crate::encode::mg_flags_text;
use crate::encode::mn_request;
use crate::encode::ms_flags_text;
use crate::encode::quit_request;
use crate::encode::retrieval_request;
use crate::encode::shutdown_request;
use crate::encode::slabs_automove_request;
use crate::encode::slabs_reassign_request;
use crate::encode::slices;
use crate::encode::stats_request;
use crate::encode::storage_request;
use crate::encode::touch_request;
use crate::encode::version_request;
use crate::encode::watch_request;
use crate::meta::ma_reply;
use crate::meta::md_reply;
use crate::meta::mg_reply;
use crate::meta::ms_reply;
use crate::meta::parse_ma_rp;
use crate::meta::parse_md_rp;
use crate::meta::parse_mg_rp;
use crate::meta::parse_ms_rp;
use crate::model::outcome;
use crate::model::Error;
use crate::model::Fault;
use crate::model::Model;
use crate::stream::Connection;
use crate::stream::Wire;
use crate::text::b;
use crate::types::Item;
use crate::types::ItemModel;
use crate::types::LruArg;
use crate::types::LruCrawlerArg;
use crate::types::LruCrawlerCrawlArg;
use crate::types::LruCrawlerMetadumpArg;
use crate::types::LruCrawlerMgdumpArg;
use crate::types::MaFlag;
use crate::types::MaItem;
use crate::types::MaModel;
use crate::types::MdFlag;
use crate::types::MdItem;
use crate::types::MdModel;
use crate::types::MgFlag;
use crate::types::MgItem;
use crate::types::MgModel;
use crate::types::MsFlag;
use crate::types::MsItem;
use crate::types::MsModel;
use crate::types::SlabsAutomoveArg;
use crate::types::StatsArg;
use crate::types::WatchArg;
use vstd::prelude::*;

verus! {

/// What `quit_cmd` does to a stream: the command is written, and no
/// reply is waited for.
pub open spec fn quit_exchange(w: Wire) -> (Result<(), Fault>, Wire) {
    (Ok(()), w.write_all(quit_request()))
}

/// Asks the server to close the connection.
pub fn quit_cmd(s: &mut Connection) -> (r: Result<(), Error>)
    ensures
        (outcome(r), final(s)@) == quit_exchange(old(s)@),
{
    s.write_all(build_quit_cmd());
    Ok(())
}

/// What `shutdown_cmd` does to a stream: the command is written, and no
/// reply is waited for.
pub open spec fn shutdown_exchange(w: Wire, graceful: bool) -> (Result<(), Fault>, Wire) {
    (Ok(()), w.write_all(shutdown_request(graceful)))
}

/// Asks the server to shut down.
pub fn shutdown_cmd(s: &mut Connection, graceful: bool) -> (r: Result<(), Error>)
    ensures
        (outcome(r), final(s)@) == shutdown_exchange(old(s)@, graceful),
{
    s.write_all(build_shutdown_cmd(graceful));
    Ok(())
}

/// What `version_cmd` does to a stream: the command is written, then
/// its reply is read.
pub open spec fn version_exchange(w: Wire) -> (Result<Seq<char>, Fault>, Wire) {
    version_reply(w.write_all(version_request()))
}

/// Asks for the version of the server.
pub fn version_cmd(s: &mut Connection) -> (r: Result<String, Error>)
    ensures
        (outcome(r), final(s)@) == version_exchange(old(s)@),
{
    s.write_all(build_version_cmd());
    parse_version_rp(s)
}

/// What `cache_memlimit_cmd` does to a stream: the command is written, then
/// its reply is read.
pub open spec fn cache_memlimit_exchange(
    w: Wire,
    limit: usize,
    noreply: bool,
) -> (Result<(), Fault>, Wire) {
    ok_reply(w.write_all(cache_memlimit_request(limit, noreply)), noreply)
}

/// Sets the memory limit of the cache, in megabytes.
pub fn cache_memlimit_cmd(s: &mut Connection, limit: usize, noreply: bool) -> (r: Result<(), Error>)
    ensures
        (outcome(r), final(s)@) == cache_memlimit_exchange(old(s)@, limit, noreply),
{
    s.write_all(build_cache_memlimit_cmd(limit, noreply).as_slice());
    parse_ok_rp(s, noreply)
}

/// What `flush_all_cmd` does to a stream: the command is written, then
/// its reply is read.
pub open spec fn flush_all_exchange(
    w: Wire,
    exptime: Option<i64>,
    noreply: bool,
) -> (Result<(), Fault>, Wire) {
    ok_reply(w.write_all(flush_all_request(exptime, noreply)), noreply)
}

/// Invalidates every entry, at once or after a delay.
pub fn flush_all_cmd(
    s: &mut Connection,
    exptime: Option<i64>,
    noreply: bool,
) -> (r: Result<(), Error>)
    ensures
        (outcome(r), final(s)@) == flush_all_exchange(old(s)@, exptime, noreply),
{
    s.write_all(build_flush_all_cmd(exptime, noreply).as_slice());
    parse_ok_rp(s, noreply)
}

/// What `storage_cmd` does to a stream: the command is written, then
/// its reply is read.
pub open spec fn storage_exchange(
    w: Wire,
    command_name: Seq<u8>,
    key: Seq<u8>,
    flags: u32,
    exptime: i64,
    cas_unique: Option<u64>,
    noreply: bool,
    data_block: Seq<u8>,
) -> (Result<bool, Fault>, Wire) {
    storage_reply(
        w.write_all(
            storage_request(command_name, key, flags, exptime, cas_unique, noreply, data_block),
        ),
        noreply,
    )
}

/// Stores data under a key with one of the storage verbs.
pub fn storage_cmd(
    s: &mut Connection,
    command_name: &[u8],
    key: &[u8],
    flags: u32,
    exptime: i64,
    cas_unique: Option<u64>,
    noreply: bool,
    data_block: &[u8],
) -> (r: Result<bool, Error>)
    ensures
        (outcome(r), final(s)@) == storage_exchange(
            old(s)@,
            command_name@,
            key@,
            flags,
            exptime,
            cas_unique,
            noreply,
            data_block@,
        ),
{
    s.write_all(
        build_storage_cmd(
            command_name,
            key,
            flags,
            exptime,
            cas_unique,
            noreply,
            data_block,
        ).as_slice(),
    );
    parse_storage_rp(s, noreply)
}

/// What `delete_cmd` does to a stream: the command is written, then
/// its reply is read.
pub open spec fn delete_exchange(
    w: Wire,
    key: Seq<u8>,
    noreply: bool,
) -> (Result<bool, Fault>, Wire) {
    delete_reply(w.write_all(delete_request(key, noreply)), noreply)
}

/// Deletes a key.
pub fn delete_cmd(s: &mut Connection, key: &[u8], noreply: bool) -> (r: Result<bool, Error>)
    ensures
        (outcome(r), final(s)@) == delete_exchange(old(s)@, key@, noreply),
{
    s.write_all(build_delete_cmd(key, noreply).as_slice());
    parse_delete_rp(s, noreply)
}

/// What `auth_cmd` does to a stream: the command is written, then
/// its reply is read.
pub open spec fn auth_exchange(
    w: Wire,
    username: Seq<u8>,
    password: Seq<u8>,
) -> (Result<(), Fault>, Wire) {
    auth_reply(w.write_all(auth_request(username, password)))
}

/// Authenticates with a user name and a password.
pub fn auth_cmd(s: &mut Connection, username: &[u8], password: &[u8]) -> (r: Result<(), Error>)
    ensures
        (outcome(r), final(s)@) == auth_exchange(old(s)@, username@, password@),
{
    s.write_all(build_auth_cmd(username, password).as_slice());
    parse_auth_rp(s)
}

/// What `incr_decr_cmd` does to a stream: the command is written, then
/// its reply is read.
pub open spec fn incr_decr_exchange(
    w: Wire,
    command_name: Seq<u8>,
    key: Seq<u8>,
    value: u64,
    noreply: bool,
) -> (Result<Option<u64>, Fault>, Wire) {
    incr_decr_reply(w.write_all(incr_decr_request(command_name, key, value, noreply)), noreply)
}

/// Adds to or takes from the number under a key.
pub fn incr_decr_cmd(
    s: &mut Connection,
    command_name: &[u8],
    key: &[u8],
    value: u64,
    noreply: bool,
) -> (r: Result<Option<u64>, Error>)
    ensures
        (outcome(r), final(s)@) == incr_decr_exchange(old(s)@, command_name@, key@, value, noreply),
{
    s.write_all(build_incr_decr_cmd(command_name, key, value, noreply).as_slice());
    parse_incr_decr_rp(s, noreply)
}

/// What `touch_cmd` does to a stream: the command is written, then
/// its reply is read.
pub open spec fn touch_exchange(
    w: Wire,
    key: Seq<u8>,
    exptime: i64,
    noreply: bool,
) -> (Result<bool, Fault>, Wire) {
    touch_reply(w.write_all(touch_request(key, exptime, noreply)), noreply)
}

/// Sets the expiry of a key.
pub fn touch_cmd(
    s: &mut Connection,
    key: &[u8],
    exptime: i64,
    noreply: bool,
) -> (r: Result<bool, Error>)
    ensures
        (outcome(r), final(s)@) == touch_exchange(old(s)@, key@, exptime, noreply),
{
    s.write_all(build_touch_cmd(key, exptime, noreply).as_slice());
    parse_touch_rp(s, noreply)
}

/// What `retrieval_cmd` does to a stream: the command is written, then
/// its reply is read.
pub open spec fn retrieval_exchange(
    w: Wire,
    command_name: Seq<u8>,
    exptime: Option<i64>,
    keys: Seq<Seq<u8>>,
) -> (Result<Seq<ItemModel>, Fault>, Wire) {
    retrieval_reply(w.write_all(retrieval_request(command_name, exptime, keys)))
}

/// Fetches the entries under some keys with one of the retrieval verbs.
pub fn retrieval_cmd(
    s: &mut Connection,
    command_name: &[u8],
    exptime: Option<i64>,
    keys: &[&[u8]],
) -> (r: Result<Vec<Item>, Error>)
    ensures
        (outcome(r), final(s)@) == retrieval_exchange(
            old(s)@,
            command_name@,
            exptime,
            slices(keys@),
        ),
{
    s.write_all(build_retrieval_cmd(command_name, exptime, keys).as_slice());
    parse_retrieval_rp(s)
}

/// What `stats_cmd` does to a stream: the command is written, then
/// its reply is read.
pub open spec fn stats_exchange(w: Wire, arg: Option<StatsArg>) -> (
    Result<Seq<(Seq<char>, Seq<char>)>, Fault>,
    Wire,
) {
    stats_reply(w.write_all(stats_request(arg)))
}

/// Asks for statistics.
pub fn stats_cmd(
    s: &mut Connection,
    arg: Option<StatsArg>,
) -> (r: Result<Vec<(String, String)>, Error>)
    ensures
        (outcome(r), final(s)@) == stats_exchange(old(s)@, arg),
{
    s.write_all(build_stats_cmd(arg).as_slice());
    parse_stats_rp(s)
}

/// What `slabs_automove_cmd` does to a stream: the command is written, then
/// its reply is read.
pub open spec fn slabs_automove_exchange(
    w: Wire,
    arg: SlabsAutomoveArg,
) -> (Result<(), Fault>, Wire) {
    ok_reply(w.write_all(slabs_automove_request(arg)), false)
}

/// Sets how eagerly memory moves between slab classes.
pub fn slabs_automove_cmd(s: &mut Connection, arg: SlabsAutomoveArg) -> (r: Result<(), Error>)
    ensures
        (outcome(r), final(s)@) == slabs_automove_exchange(old(s)@, arg),
{
    s.write_all(build_slabs_automove_cmd(arg).as_slice());
    parse_ok_rp(s, false)
}

/// What `lru_crawler_cmd` does to a stream: the command is written, then
/// its reply is read.
pub open spec fn lru_crawler_exchange(w: Wire, arg: LruCrawlerArg) -> (Result<(), Fault>, Wire) {
    ok_reply(w.write_all(lru_crawler_request(arg)), false)
}

/// Switches the background crawler on or off.
pub fn lru_crawler_cmd(s: &mut Connection, arg: LruCrawlerArg) -> (r: Result<(), Error>)
    ensures
        (outcome(r), final(s)@) == lru_crawler_exchange(old(s)@, arg),
{
    s.write_all(build_lru_crawler_cmd(arg));
    parse_ok_rp(s, false)
}

/// What `lru_crawler_sleep_cmd` does to a stream: the command is written, then
/// its reply is read.
pub open spec fn lru_crawler_sleep_exchange(
    w: Wire,
    microseconds: usize,
) -> (Result<(), Fault>, Wire) {
    ok_reply(w.write_all(lru_crawler_sleep_request(microseconds)), false)
}

/// Sets how long the crawler sleeps between items.
pub fn lru_crawler_sleep_cmd(s: &mut Connection, microseconds: usize) -> (r: Result<(), Error>)
    ensures
        (outcome(r), final(s)@) == lru_crawler_sleep_exchange(old(s)@, microseconds),
{
    s.write_all(build_lru_crawler_sleep_cmd(microseconds).as_slice());
    parse_ok_rp(s, false)
}

/// What `lru_crawler_tocrawl_cmd` does to a stream: the command is written, then
/// its reply is read.
pub open spec fn lru_crawler_tocrawl_exchange(w: Wire, arg: u32) -> (Result<(), Fault>, Wire) {
    ok_reply(w.write_all(lru_crawler_tocrawl_request(arg)), false)
}

/// Sets how many items the crawler inspects per run.
pub fn lru_crawler_tocrawl_cmd(s: &mut Connection, arg: u32) -> (r: Result<(), Error>)
    ensures
        (outcome(r), final(s)@) == lru_crawler_tocrawl_exchange(old(s)@, arg),
{
    s.write_all(build_lru_crawler_tocrawl_cmd(arg).as_slice());
    parse_ok_rp(s, false)
}

/// What `lru_crawler_crawl_cmd` does to a stream: the command is written, then
/// its reply is read.
pub open spec fn lru_crawler_crawl_exchange(
    w: Wire,
    arg: LruCrawlerCrawlArg,
) -> (Result<(), Fault>, Wire) {
    ok_reply(w.write_all(lru_crawler_crawl_request(arg)), false)
}

/// Starts a crawl.
pub fn lru_crawler_crawl_cmd(
    s: &mut Connection,
    arg: LruCrawlerCrawlArg<'_>,
) -> (r: Result<(), Error>)
    ensures
        (outcome(r), final(s)@) == lru_crawler_crawl_exchange(old(s)@, arg),
{
    s.write_all(build_lru_crawler_crawl_cmd(arg).as_slice());
    parse_ok_rp(s, false)
}

/// What `slabs_reassign_cmd` does to a stream: the command is written, then
/// its reply is read.
pub open spec fn slabs_reassign_exchange(
    w: Wire,
    source_class: usize,
    dest_class: usize,
) -> (Result<(), Fault>, Wire) {
    ok_reply(w.write_all(slabs_reassign_request(source_class, dest_class)), false)
}

/// Moves a page of memory from one slab class to another.
pub fn slabs_reassign_cmd(
    s: &mut Connection,
    source_class: usize,
    dest_class: usize,
) -> (r: Result<(), Error>)
    ensures
        (outcome(r), final(s)@) == slabs_reassign_exchange(old(s)@, source_class, dest_class),
{
    s.write_all(build_slabs_reassign_cmd(source_class, dest_class).as_slice());
    parse_ok_rp(s, false)
}

/// What `lru_crawler_metadump_cmd` does to a stream: the command is written, then
/// its reply is read.
pub open spec fn lru_crawler_metadump_exchange(
    w: Wire,
    arg: LruCrawlerMetadumpArg,
) -> (Result<Seq<Seq<char>>, Fault>, Wire) {
    metadump_reply(w.write_all(lru_crawler_metadump_request(arg)))
}

/// Dumps the metadata of items.
pub fn lru_crawler_metadump_cmd(
    s: &mut Connection,
    arg: LruCrawlerMetadumpArg<'_>,
) -> (r: Result<Vec<String>, Error>)
    ensures
        (outcome(r), final(s)@) == lru_crawler_metadump_exchange(old(s)@, arg),
{
    s.write_all(build_lru_crawler_metadump_cmd(arg).as_slice());
    parse_lru_crawler_metadump_rp(s)
}

/// What `lru_crawler_mgdump_cmd` does to a stream: the command is written, then
/// its reply is read.
pub open spec fn lru_crawler_mgdump_exchange(w: Wire, arg: LruCrawlerMgdumpArg) -> (
    Result<Seq<Seq<char>>, Fault>,
    Wire,
) {
    mgdump_reply(w.write_all(lru_crawler_mgdump_request(arg)))
}

/// Dumps keys.
pub fn lru_crawler_mgdump_cmd(
    s: &mut Connection,
    arg: LruCrawlerMgdumpArg<'_>,
) -> (r: Result<Vec<String>, Error>)
    ensures
        (outcome(r), final(s)@) == lru_crawler_mgdump_exchange(old(s)@, arg),
{
    s.write_all(build_lru_crawler_mgdump_cmd(arg).as_slice());
    parse_lru_crawler_mgdump_rp(s)
}

/// What `mn_cmd` does to a stream: the command is written, then
/// its reply is read.
pub open spec fn mn_exchange(w: Wire) -> (Result<(), Fault>, Wire) {
    mn_reply(w.write_all(mn_request()))
}

/// Sends the meta no-op.
pub fn mn_cmd(s: &mut Connection) -> (r: Result<(), Error>)
    ensures
        (outcome(r), final(s)@) == mn_exchange(old(s)@),
{
    s.write_all(build_mn_cmd());
    parse_mn_rp(s)
}

/// What `me_cmd` does to a stream: the command is written, then
/// its reply is read.
pub open spec fn me_exchange(w: Wire, key: Seq<u8>) -> (Result<Option<Seq<char>>, Fault>, Wire) {
    me_reply(w.write_all(me_request(key)))
}

/// Asks for the debug line of a key.
pub fn me_cmd(s: &mut Connection, key: &[u8]) -> (r: Result<Option<String>, Error>)
    ensures
        (outcome(r), final(s)@) == me_exchange(old(s)@, key@),
{
    s.write_all(build_me_cmd(key).as_slice());
    parse_me_rp(s)
}

/// What `watch_cmd` does to a stream: the command is written, then
/// its reply is read.
pub open spec fn watch_exchange(w: Wire, arg: Seq<WatchArg>) -> (Result<(), Fault>, Wire) {
    ok_reply(w.write_all(watch_request(arg)), false)
}

/// Asks the server to stream events of some kinds.
pub fn watch_cmd(s: &mut Connection, arg: &[WatchArg]) -> (r: Result<(), Error>)
    ensures
        (outcome(r), final(s)@) == watch_exchange(old(s)@, arg@),
{
    s.write_all(build_watch_cmd(arg).as_slice());
    parse_ok_rp(s, false)
}

/// What `ms_cmd` does to a stream: the command is written, then
/// its reply is read.
pub open spec fn ms_exchange(
    w: Wire,
    key: Seq<u8>,
    flags: Seq<MsFlag>,
    data_block: Seq<u8>,
) -> (Result<MsModel, Fault>, Wire) {
    ms_reply(w.write_all(mc_request(b("ms"), key, ms_flags_text(flags), Some(data_block))))
}

/// Sends a meta set.
pub fn ms_cmd(
    s: &mut Connection,
    key: &[u8],
    flags: &[MsFlag],
    data_block: &[u8],
) -> (r: Result<MsItem, Error>)
    ensures
        (outcome(r), final(s)@) == ms_exchange(old(s)@, key@, flags@, data_block@),
{
    s.write_all(
        build_mc_cmd(
            "ms".as_bytes(),
            key,
            build_ms_flags(flags).as_slice(),
            Some(data_block),
        ).as_slice(),
    );
    parse_ms_rp(s)
}

/// What `mg_cmd` does to a stream: the command is written, then
/// its reply is read.
pub open spec fn mg_exchange(
    w: Wire,
    key: Seq<u8>,
    flags: Seq<MgFlag>,
) -> (Result<MgModel, Fault>, Wire) {
    mg_reply(w.write_all(mc_request(b("mg"), key, mg_flags_text(flags), None)))
}

/// Sends a meta get.
pub fn mg_cmd(s: &mut Connection, key: &[u8], flags: &[MgFlag]) -> (r: Result<MgItem, Error>)
    ensures
        (outcome(r), final(s)@) == mg_exchange(old(s)@, key@, flags@),
{
    s.write_all(
        build_mc_cmd("mg".as_bytes(), key, build_mg_flags(flags).as_slice(), None).as_slice(),
    );
    parse_mg_rp(s)
}

/// What `md_cmd` does to a stream: the command is written, then
/// its reply is read.
pub open spec fn md_exchange(
    w: Wire,
    key: Seq<u8>,
    flags: Seq<MdFlag>,
) -> (Result<MdModel, Fault>, Wire) {
    md_reply(w.write_all(mc_request(b("md"), key, md_flags_text(flags), None)))
}

/// Sends a meta delete.
pub fn md_cmd(s: &mut Connection, key: &[u8], flags: &[MdFlag]) -> (r: Result<MdItem, Error>)
    ensures
        (outcome(r), final(s)@) == md_exchange(old(s)@, key@, flags@),
{
    s.write_all(
        build_mc_cmd("md".as_bytes(), key, build_md_flags(flags).as_slice(), None).as_slice(),
    );
    parse_md_rp(s)
}

/// What `ma_cmd` does to a stream: the command is written, then
/// its reply is read.
pub open spec fn ma_exchange(
    w: Wire,
    key: Seq<u8>,
    flags: Seq<MaFlag>,
) -> (Result<MaModel, Fault>, Wire) {
    ma_reply(w.write_all(mc_request(b("ma"), key, ma_flags_text(flags), None)))
}

/// Sends a meta arithmetic.
pub fn ma_cmd(s: &mut Connection, key: &[u8], flags: &[MaFlag]) -> (r: Result<MaItem, Error>)
    ensures
        (outcome(r), final(s)@) == ma_exchange(old(s)@, key@, flags@),
{
    s.write_all(
        build_mc_cmd("ma".as_bytes(), key, build_ma_flags(flags).as_slice(), None).as_slice(),
    );
    parse_ma_rp(s)
}

/// What `lru_cmd` does to a stream: the command is written, then
/// its reply is read.
pub open spec fn lru_exchange(w: Wire, arg: LruArg) -> (Result<(), Fault>, Wire) {
    ok_reply(w.write_all(lru_request(arg)), false)
}

/// Changes a setting of the LRU.
pub fn lru_cmd(s: &mut Connection, arg: LruArg) -> (r: Result<(), Error>)
    ensures
        (outcome(r), final(s)@) == lru_exchange(old(s)@, arg),
{
    s.write_all(build_lru_cmd(arg).as_slice());
    parse_ok_rp(s, false)
}

/// The command of a retrieval of one key.
pub fn build_single_cmd(command_name: &[u8], exptime: Option<i64>, key: &[u8]) -> (r: Vec<u8>)
    ensures
        r@ == retrieval_request(command_name@, exptime, seq![key@]),
{
    let keys = [key];
    assert(slices(keys@) =~= seq![key@]);
    build_retrieval_cmd(command_name, exptime, keys.as_slice())
}

/// What `single_cmd` does to a stream: a retrieval that names one key, of
/// whose entries the last is kept.
pub open spec fn single_exchange(w: Wire, name: Seq<u8>, exptime: Option<i64>, key: Seq<u8>) -> (
    Result<Option<ItemModel>, Fault>,
    Wire,
) {
    match retrieval_exchange(w, name, exptime, seq![key]) {
        (Ok(items), after) => (Ok(last_item(items)), after),
        (Err(f), after) => (Err(f), after),
    }
}

/// Fetches the entry under one key with one of the retrieval verbs.
pub fn single_cmd(s: &mut Connection, command_name: &[u8], exptime: Option<i64>, key: &[u8]) -> (r:
    Result<Option<Item>, Error>)
    ensures
        (outcome(r), final(s)@) == single_exchange(old(s)@, command_name@, exptime, key@),
{
    let keys = [key];
    assert(slices(keys@) =~= seq![key@]);
    match retrieval_cmd(s, command_name, exptime, keys.as_slice()) {
        Ok(items) => Ok(take_last(items)),
        Err(e) => Err(e),
    }
}

} // verus!
