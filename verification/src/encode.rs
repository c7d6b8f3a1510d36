//! The commands of the text and meta protocols, as the bytes that go on the
//! wire.

use crate::text::b;
use crate::text::dec;
use crate::text::dec_int;
use crate::text::dec_list;
use crate::text::join_sp;
use crate::text::push_bytes;
use crate::text::push_dec;
use crate::text::push_dec_int;
use crate::text::push_dec_list;
use crate::text::push_str;
use crate::text::SP;
use crate::types::LruArg;
use crate::types::LruCrawlerArg;
use crate::types::LruCrawlerCrawlArg;
use crate::types::LruCrawlerMetadumpArg;
use crate::types::LruCrawlerMgdumpArg;
use crate::types::LruMode;
use crate::types::MaFlag;
use crate::types::MaMode;
use crate::types::MdFlag;
use crate::types::MgFlag;
use crate::types::MsFlag;
use crate::types::MsMode;
use crate::types::SlabsAutomoveArg;
use crate::types::StatsArg;
use crate::types::WatchArg;
use vstd::prelude::*;
use vstd::utf8::encode_utf8;

verus! {

/// The token that asks the server not to reply, where it is wanted.
pub open spec fn noreply_text(noreply: bool) -> Seq<u8> {
    if noreply {
        b(" noreply")
    } else {
        Seq::empty()
    }
}

/// A storage command: the verb, the key, the flags, the expiry, the length of
/// the data, for `cas` the token, then the data on a line of its own.
pub open spec fn storage_request(
    name: Seq<u8>,
    key: Seq<u8>,
    flags: u32,
    exptime: i64,
    cas_unique: Option<u64>,
    noreply: bool,
    data: Seq<u8>,
) -> Seq<u8> {
    name + b(" ") + key + b(" ") + dec(flags as nat) + b(" ") + dec_int(exptime as int) + b(" ")
        + dec(data.len()) + (match cas_unique {
        Some(c) => b(" ") + dec(c as nat),
        None => Seq::empty(),
    }) + noreply_text(noreply) + b("\r\n") + data + b("\r\n")
}

/// The keys of a list of keys.
pub open spec fn slices(keys: Seq<&[u8]>) -> Seq<Seq<u8>> {
    Seq::new(keys.len(), |i: int| keys[i]@)
}

/// A retrieval command: the verb, for `gat` and `gats` the expiry, and the
/// keys with one space between them.
pub open spec fn retrieval_request(name: Seq<u8>, exptime: Option<i64>, keys: Seq<Seq<u8>>) -> Seq<
    u8,
> {
    name + b(" ") + (match exptime {
        Some(x) => dec_int(x as int) + b(" "),
        None => Seq::empty(),
    }) + join_sp(keys) + b("\r\n")
}

pub open spec fn version_request() -> Seq<u8> {
    b("version\r\n")
}

pub open spec fn quit_request() -> Seq<u8> {
    b("quit\r\n")
}

pub open spec fn shutdown_request(graceful: bool) -> Seq<u8> {
    if graceful {
        b("shutdown graceful\r\n")
    } else {
        b("shutdown\r\n")
    }
}

pub open spec fn cache_memlimit_request(limit: usize, noreply: bool) -> Seq<u8> {
    b("cache_memlimit ") + dec(limit as nat) + noreply_text(noreply) + b("\r\n")
}

pub open spec fn flush_all_request(exptime: Option<i64>, noreply: bool) -> Seq<u8> {
    b("flush_all") + (match exptime {
        Some(x) => b(" ") + dec_int(x as int),
        None => Seq::empty(),
    }) + noreply_text(noreply) + b("\r\n")
}

pub open spec fn delete_request(key: Seq<u8>, noreply: bool) -> Seq<u8> {
    b("delete ") + key + noreply_text(noreply) + b("\r\n")
}

/// An authentication: a `set` of the key `_` whose data is the user name, a
/// space and the password.
pub open spec fn auth_request(username: Seq<u8>, password: Seq<u8>) -> Seq<u8> {
    b("set _ _ _ ") + dec(username.len() + password.len() + 1) + b("\r\n") + username + b(" ")
        + password + b("\r\n")
}

pub open spec fn incr_decr_request(name: Seq<u8>, key: Seq<u8>, value: u64, noreply: bool) -> Seq<
    u8,
> {
    name + b(" ") + key + b(" ") + dec(value as nat) + noreply_text(noreply) + b("\r\n")
}

pub open spec fn touch_request(key: Seq<u8>, exptime: i64, noreply: bool) -> Seq<u8> {
    b("touch ") + key + b(" ") + dec_int(exptime as int) + noreply_text(noreply) + b("\r\n")
}

pub open spec fn stats_request(arg: Option<StatsArg>) -> Seq<u8> {
    match arg {
        Some(StatsArg::Settings) => b("stats settings\r\n"),
        Some(StatsArg::Items) => b("stats items\r\n"),
        Some(StatsArg::Sizes) => b("stats sizes\r\n"),
        Some(StatsArg::Slabs) => b("stats slabs\r\n"),
        Some(StatsArg::Conns) => b("stats conns\r\n"),
        None => b("stats\r\n"),
    }
}

pub open spec fn slabs_automove_request(arg: SlabsAutomoveArg) -> Seq<u8> {
    match arg {
        SlabsAutomoveArg::Zero => b("slabs automove 0\r\n"),
        SlabsAutomoveArg::One => b("slabs automove 1\r\n"),
        SlabsAutomoveArg::Two => b("slabs automove 2\r\n"),
    }
}

pub open spec fn lru_crawler_request(arg: LruCrawlerArg) -> Seq<u8> {
    match arg {
        LruCrawlerArg::Enable => b("lru_crawler enable\r\n"),
        LruCrawlerArg::Disable => b("lru_crawler disable\r\n"),
    }
}

pub open spec fn lru_crawler_sleep_request(microseconds: usize) -> Seq<u8> {
    b("lru_crawler sleep ") + dec(microseconds as nat) + b("\r\n")
}

pub open spec fn lru_crawler_tocrawl_request(arg: u32) -> Seq<u8> {
    b("lru_crawler tocrawl ") + dec(arg as nat) + b("\r\n")
}

pub open spec fn lru_crawler_crawl_request(arg: LruCrawlerCrawlArg) -> Seq<u8> {
    b("lru_crawler crawl ") + (match arg {
        LruCrawlerCrawlArg::Classids(ids) => dec_list(ids@),
        LruCrawlerCrawlArg::All => b("all"),
    }) + b("\r\n")
}

pub open spec fn slabs_reassign_request(source_class: usize, dest_class: usize) -> Seq<u8> {
    b("slabs reassign ") + dec(source_class as nat) + b(" ") + dec(dest_class as nat) + b("\r\n")
}

pub open spec fn lru_crawler_metadump_request(arg: LruCrawlerMetadumpArg) -> Seq<u8> {
    b("lru_crawler metadump ") + (match arg {
        LruCrawlerMetadumpArg::Classids(ids) => dec_list(ids@),
        LruCrawlerMetadumpArg::All => b("all"),
        LruCrawlerMetadumpArg::Hash => b("hash"),
    }) + b("\r\n")
}

pub open spec fn lru_crawler_mgdump_request(arg: LruCrawlerMgdumpArg) -> Seq<u8> {
    b("lru_crawler mgdump ") + (match arg {
        LruCrawlerMgdumpArg::Classids(ids) => dec_list(ids@),
        LruCrawlerMgdumpArg::All => b("all"),
        LruCrawlerMgdumpArg::Hash => b("hash"),
    }) + b("\r\n")
}

pub open spec fn mn_request() -> Seq<u8> {
    b("mn\r\n")
}

pub open spec fn me_request(key: Seq<u8>) -> Seq<u8> {
    b("me ") + key + b("\r\n")
}

/// The token for one kind of event, with the space before it.
pub open spec fn watch_arg_text(arg: WatchArg) -> Seq<u8> {
    match arg {
        WatchArg::Fetchers => b(" fetchers"),
        WatchArg::Mutations => b(" mutations"),
        WatchArg::Evictions => b(" evictions"),
        WatchArg::Connevents => b(" connevents"),
        WatchArg::Proxyreqs => b(" proxyreqs"),
        WatchArg::Proxyevents => b(" proxyevents"),
        WatchArg::Proxyuser => b(" proxyuser"),
        WatchArg::Deletions => b(" deletions"),
    }
}

/// The tokens for a list of kinds of events, in the order given.
pub open spec fn watch_args_text(args: Seq<WatchArg>) -> Seq<u8>
    decreases args.len(),
{
    if args.len() == 0 {
        Seq::empty()
    } else {
        watch_args_text(args.drop_last()) + watch_arg_text(args.last())
    }
}

pub open spec fn watch_request(args: Seq<WatchArg>) -> Seq<u8> {
    b("watch") + watch_args_text(args) + b("\r\n")
}

/// A meta command: the verb, the key, for a command with data its length,
/// the flags, and the data on a line of its own.
pub open spec fn mc_request(
    name: Seq<u8>,
    key: Seq<u8>,
    flags: Seq<u8>,
    data: Option<Seq<u8>>,
) -> Seq<
    u8,
> {
    name + b(" ") + key + (match data {
        Some(d) => b(" ") + dec(d.len()),
        None => Seq::empty(),
    }) + flags + b("\r\n") + (match data {
        Some(d) => d + b("\r\n"),
        None => Seq::empty(),
    })
}

/// The token for one flag of a meta set, with the space before it.
pub open spec fn ms_flag_text(flag: MsFlag) -> Seq<u8> {
    match flag {
        MsFlag::Base64Key => b(" b"),
        MsFlag::ReturnCas => b(" c"),
        MsFlag::CompareCas(token) => b(" C") + dec(token as nat),
        MsFlag::NewCas(token) => b(" E") + dec(token as nat),
        MsFlag::SetFlags(token) => b(" F") + dec(token as nat),
        MsFlag::Invalidate => b(" I"),
        MsFlag::ReturnKey => b(" k"),
        MsFlag::Opaque(token) => b(" O") + encode_utf8(token@),
        MsFlag::ReturnSize => b(" s"),
        MsFlag::Ttl(token) => b(" T") + dec_int(token as int),
        MsFlag::Mode(MsMode::Add) => b(" ME"),
        MsFlag::Mode(MsMode::Append) => b(" MA"),
        MsFlag::Mode(MsMode::Prepend) => b(" MP"),
        MsFlag::Mode(MsMode::Replace) => b(" MR"),
        MsFlag::Mode(MsMode::Store) => b(" MS"),
        MsFlag::Autovivify(token) => b(" N") + dec_int(token as int),
    }
}

/// The tokens for the flags of a meta set, in the order given.
pub open spec fn ms_flags_text(flags: Seq<MsFlag>) -> Seq<u8>
    decreases flags.len(),
{
    if flags.len() == 0 {
        Seq::empty()
    } else {
        ms_flags_text(flags.drop_last()) + ms_flag_text(flags.last())
    }
}

/// The token for one flag of a meta get, with the space before it.
pub open spec fn mg_flag_text(flag: MgFlag) -> Seq<u8> {
    match flag {
        MgFlag::Base64Key => b(" b"),
        MgFlag::ReturnCas => b(" c"),
        MgFlag::ReturnFlags => b(" f"),
        MgFlag::ReturnHit => b(" h"),
        MgFlag::ReturnKey => b(" k"),
        MgFlag::ReturnLastAccess => b(" l"),
        MgFlag::Opaque(token) => b(" O") + encode_utf8(token@),
        MgFlag::ReturnSize => b(" s"),
        MgFlag::ReturnTtl => b(" t"),
        MgFlag::UnBump => b(" u"),
        MgFlag::ReturnValue => b(" v"),
        MgFlag::NewCas(token) => b(" E") + dec(token as nat),
        MgFlag::Autovivify(token) => b(" N") + dec_int(token as int),
        MgFlag::RecacheTtl(token) => b(" R") + dec_int(token as int),
        MgFlag::UpdateTtl(token) => b(" T") + dec_int(token as int),
    }
}

/// The tokens for the flags of a meta get, in the order given.
pub open spec fn mg_flags_text(flags: Seq<MgFlag>) -> Seq<u8>
    decreases flags.len(),
{
    if flags.len() == 0 {
        Seq::empty()
    } else {
        mg_flags_text(flags.drop_last()) + mg_flag_text(flags.last())
    }
}

/// The token for one flag of a meta delete, with the space before it.
pub open spec fn md_flag_text(flag: MdFlag) -> Seq<u8> {
    match flag {
        MdFlag::Base64Key => b(" b"),
        MdFlag::CompareCas(token) => b(" C") + dec(token as nat),
        MdFlag::NewCas(token) => b(" E") + dec(token as nat),
        MdFlag::Invalidate => b(" I"),
        MdFlag::ReturnKey => b(" k"),
        MdFlag::Opaque(token) => b(" O") + encode_utf8(token@),
        MdFlag::UpdateTtl(token) => b(" T") + dec_int(token as int),
        MdFlag::LeaveKey => b(" x"),
    }
}

/// The tokens for the flags of a meta delete, in the order given.
pub open spec fn md_flags_text(flags: Seq<MdFlag>) -> Seq<u8>
    decreases flags.len(),
{
    if flags.len() == 0 {
        Seq::empty()
    } else {
        md_flags_text(flags.drop_last()) + md_flag_text(flags.last())
    }
}

/// The token for one flag of a meta arithmetic, with the space before it.
pub open spec fn ma_flag_text(flag: MaFlag) -> Seq<u8> {
    match flag {
        MaFlag::Base64Key => b(" b"),
        MaFlag::CompareCas(token) => b(" C") + dec(token as nat),
        MaFlag::NewCas(token) => b(" E") + dec(token as nat),
        MaFlag::AutoCreate(token) => b(" N") + dec_int(token as int),
        MaFlag::InitValue(token) => b(" J") + dec(token as nat),
        MaFlag::DeltaApply(token) => b(" D") + dec(token as nat),
        MaFlag::UpdateTtl(token) => b(" T") + dec_int(token as int),
        MaFlag::Mode(MaMode::Incr) => b(" M+"),
        MaFlag::Mode(MaMode::Decr) => b(" M-"),
        MaFlag::Opaque(token) => b(" O") + encode_utf8(token@),
        MaFlag::ReturnTtl => b(" t"),
        MaFlag::ReturnCas => b(" c"),
        MaFlag::ReturnValue => b(" v"),
        MaFlag::ReturnKey => b(" k"),
    }
}

/// The tokens for the flags of a meta arithmetic, in the order given.
pub open spec fn ma_flags_text(flags: Seq<MaFlag>) -> Seq<u8>
    decreases flags.len(),
{
    if flags.len() == 0 {
        Seq::empty()
    } else {
        ma_flags_text(flags.drop_last()) + ma_flag_text(flags.last())
    }
}

pub open spec fn lru_request(arg: LruArg) -> Seq<u8> {
    match arg {
        LruArg::Tune { percent_hot, percent_warm, max_hot_factor, max_warm_factor } => b(
            "lru tune ",
        ) + dec(percent_hot as nat) + b(" ") + dec(percent_warm as nat) + b(" ") + encode_utf8(
            max_hot_factor@,
        ) + b(" ") + encode_utf8(max_warm_factor@) + b("\r\n"),
        LruArg::Mode(LruMode::Flat) => b("lru mode flat\r\n"),
        LruArg::Mode(LruMode::Segmented) => b("lru mode segmented\r\n"),
        LruArg::TempTtl(ttl) => b("lru temp_ttl ") + dec_int(ttl as int) + b("\r\n"),
    }
}

fn push_noreply(w: &mut Vec<u8>, noreply: bool)
    ensures
        final(w)@ == old(w)@ + noreply_text(noreply),
{
    if noreply {
        push_str(w, " noreply");
    }
    assert(w@ =~= old(w)@ + noreply_text(noreply));
}

pub fn build_storage_cmd(
    command_name: &[u8],
    key: &[u8],
    flags: u32,
    exptime: i64,
    cas_unique: Option<u64>,
    noreply: bool,
    data_block: &[u8],
) -> (r: Vec<u8>)
    ensures
        r@ == storage_request(
            command_name@,
            key@,
            flags,
            exptime,
            cas_unique,
            noreply,
            data_block@,
        ),
{
    let mut w: Vec<u8> = Vec::new();
    push_bytes(&mut w, command_name);
    push_str(&mut w, " ");
    push_bytes(&mut w, key);
    push_str(&mut w, " ");
    push_dec(&mut w, flags as u64);
    push_str(&mut w, " ");
    push_dec_int(&mut w, exptime);
    push_str(&mut w, " ");
    push_dec(&mut w, data_block.len() as u64);
    match cas_unique {
        Some(x) => {
            push_str(&mut w, " ");
            push_dec(&mut w, x);
        },
        None => {},
    }
    push_noreply(&mut w, noreply);
    push_str(&mut w, "\r\n");
    push_bytes(&mut w, data_block);
    push_str(&mut w, "\r\n");
    assert(w@ =~= storage_request(
        command_name@,
        key@,
        flags,
        exptime,
        cas_unique,
        noreply,
        data_block@,
    ));
    w
}

pub fn build_retrieval_cmd(command_name: &[u8], exptime: Option<i64>, keys: &[&[u8]]) -> (r: Vec<
    u8,
>)
    ensures
        r@ == retrieval_request(command_name@, exptime, slices(keys@)),
{
    let mut w: Vec<u8> = Vec::new();
    push_bytes(&mut w, command_name);
    push_str(&mut w, " ");
    match exptime {
        Some(x) => {
            push_dec_int(&mut w, x);
            push_str(&mut w, " ");
        },
        None => {},
    }
    let ghost head = w@;
    let mut i: usize = 0;
    assert(join_sp(slices(keys@).take(0)) =~= Seq::<u8>::empty());
    while i < keys.len()
        invariant
            0 <= i <= keys@.len(),
            w@ == head + join_sp(slices(keys@).take(i as int)),
        decreases keys@.len() - i,
    {
        if i > 0 {
            w.push(SP);
        }
        push_bytes(&mut w, keys[i]);
        proof {
            let t = slices(keys@).take(i + 1);
            assert(t.drop_last() =~= slices(keys@).take(i as int));
            assert(t.last() == keys@[i as int]@);
            assert(w@ =~= head + join_sp(t));
        }
        i += 1;
    }
    assert(slices(keys@).take(keys@.len() as int) =~= slices(keys@));
    push_str(&mut w, "\r\n");
    assert(w@ =~= retrieval_request(command_name@, exptime, slices(keys@)));
    w
}

pub fn build_version_cmd() -> (r: &'static [u8])
    ensures
        r@ == version_request(),
{
    "version\r\n".as_bytes()
}

pub fn build_quit_cmd() -> (r: &'static [u8])
    ensures
        r@ == quit_request(),
{
    "quit\r\n".as_bytes()
}

pub fn build_shutdown_cmd(graceful: bool) -> (r: &'static [u8])
    ensures
        r@ == shutdown_request(graceful),
{
    if graceful {
        "shutdown graceful\r\n".as_bytes()
    } else {
        "shutdown\r\n".as_bytes()
    }
}

pub fn build_cache_memlimit_cmd(limit: usize, noreply: bool) -> (r: Vec<u8>)
    ensures
        r@ == cache_memlimit_request(limit, noreply),
{
    let mut w: Vec<u8> = Vec::new();
    push_str(&mut w, "cache_memlimit ");
    push_dec(&mut w, limit as u64);
    push_noreply(&mut w, noreply);
    push_str(&mut w, "\r\n");
    assert(w@ =~= cache_memlimit_request(limit, noreply));
    w
}

pub fn build_flush_all_cmd(exptime: Option<i64>, noreply: bool) -> (r: Vec<u8>)
    ensures
        r@ == flush_all_request(exptime, noreply),
{
    let mut w: Vec<u8> = Vec::new();
    push_str(&mut w, "flush_all");
    match exptime {
        Some(x) => {
            push_str(&mut w, " ");
            push_dec_int(&mut w, x);
        },
        None => {},
    }
    push_noreply(&mut w, noreply);
    push_str(&mut w, "\r\n");
    assert(w@ =~= flush_all_request(exptime, noreply));
    w
}

pub fn build_delete_cmd(key: &[u8], noreply: bool) -> (r: Vec<u8>)
    ensures
        r@ == delete_request(key@, noreply),
{
    let mut w: Vec<u8> = Vec::new();
    push_str(&mut w, "delete ");
    push_bytes(&mut w, key);
    push_noreply(&mut w, noreply);
    push_str(&mut w, "\r\n");
    assert(w@ =~= delete_request(key@, noreply));
    w
}

pub fn build_auth_cmd(username: &[u8], password: &[u8]) -> (r: Vec<u8>)
    ensures
        r@ == auth_request(username@, password@),
{
    let mut data: Vec<u8> = Vec::new();
    push_bytes(&mut data, username);
    push_str(&mut data, " ");
    push_bytes(&mut data, password);
    proof {
        reveal_strlit(" ");
        broadcast use vstd::string::is_ascii_spec_bytes;

        assert(vstd::string::is_ascii(" "));
        assert(b(" ").len() == 1);
    }
    let mut w: Vec<u8> = Vec::new();
    push_str(&mut w, "set _ _ _ ");
    push_dec(&mut w, data.len() as u64);
    push_str(&mut w, "\r\n");
    push_bytes(&mut w, data.as_slice());
    push_str(&mut w, "\r\n");
    assert(w@ =~= auth_request(username@, password@));
    w
}

pub fn build_incr_decr_cmd(command_name: &[u8], key: &[u8], value: u64, noreply: bool) -> (r: Vec<
    u8,
>)
    ensures
        r@ == incr_decr_request(command_name@, key@, value, noreply),
{
    let mut w: Vec<u8> = Vec::new();
    push_bytes(&mut w, command_name);
    push_str(&mut w, " ");
    push_bytes(&mut w, key);
    push_str(&mut w, " ");
    push_dec(&mut w, value);
    push_noreply(&mut w, noreply);
    push_str(&mut w, "\r\n");
    assert(w@ =~= incr_decr_request(command_name@, key@, value, noreply));
    w
}

pub fn build_touch_cmd(key: &[u8], exptime: i64, noreply: bool) -> (r: Vec<u8>)
    ensures
        r@ == touch_request(key@, exptime, noreply),
{
    let mut w: Vec<u8> = Vec::new();
    push_str(&mut w, "touch ");
    push_bytes(&mut w, key);
    push_str(&mut w, " ");
    push_dec_int(&mut w, exptime);
    push_noreply(&mut w, noreply);
    push_str(&mut w, "\r\n");
    assert(w@ =~= touch_request(key@, exptime, noreply));
    w
}

pub fn build_stats_cmd(arg: Option<StatsArg>) -> (r: Vec<u8>)
    ensures
        r@ == stats_request(arg),
{
    let text = match arg {
        Some(StatsArg::Settings) => "stats settings\r\n",
        Some(StatsArg::Items) => "stats items\r\n",
        Some(StatsArg::Sizes) => "stats sizes\r\n",
        Some(StatsArg::Slabs) => "stats slabs\r\n",
        Some(StatsArg::Conns) => "stats conns\r\n",
        None => "stats\r\n",
    };
    let mut w: Vec<u8> = Vec::new();
    push_str(&mut w, text);
    assert(w@ =~= stats_request(arg));
    w
}

pub fn build_slabs_automove_cmd(arg: SlabsAutomoveArg) -> (r: Vec<u8>)
    ensures
        r@ == slabs_automove_request(arg),
{
    let text = match arg {
        SlabsAutomoveArg::Zero => "slabs automove 0\r\n",
        SlabsAutomoveArg::One => "slabs automove 1\r\n",
        SlabsAutomoveArg::Two => "slabs automove 2\r\n",
    };
    let mut w: Vec<u8> = Vec::new();
    push_str(&mut w, text);
    assert(w@ =~= slabs_automove_request(arg));
    w
}

pub fn build_lru_crawler_cmd(arg: LruCrawlerArg) -> (r: &'static [u8])
    ensures
        r@ == lru_crawler_request(arg),
{
    match arg {
        LruCrawlerArg::Enable => "lru_crawler enable\r\n".as_bytes(),
        LruCrawlerArg::Disable => "lru_crawler disable\r\n".as_bytes(),
    }
}

pub fn build_lru_crawler_sleep_cmd(microseconds: usize) -> (r: Vec<u8>)
    ensures
        r@ == lru_crawler_sleep_request(microseconds),
{
    let mut w: Vec<u8> = Vec::new();
    push_str(&mut w, "lru_crawler sleep ");
    push_dec(&mut w, microseconds as u64);
    push_str(&mut w, "\r\n");
    w
}

pub fn build_lru_crawler_tocrawl_cmd(arg: u32) -> (r: Vec<u8>)
    ensures
        r@ == lru_crawler_tocrawl_request(arg),
{
    let mut w: Vec<u8> = Vec::new();
    push_str(&mut w, "lru_crawler tocrawl ");
    push_dec(&mut w, arg as u64);
    push_str(&mut w, "\r\n");
    w
}

pub fn build_lru_crawler_crawl_cmd(arg: LruCrawlerCrawlArg) -> (r: Vec<u8>)
    ensures
        r@ == lru_crawler_crawl_request(arg),
{
    let mut w: Vec<u8> = Vec::new();
    push_str(&mut w, "lru_crawler crawl ");
    match arg {
        LruCrawlerCrawlArg::Classids(ids) => push_dec_list(&mut w, ids),
        LruCrawlerCrawlArg::All => push_str(&mut w, "all"),
    }
    push_str(&mut w, "\r\n");
    w
}

pub fn build_slabs_reassign_cmd(source_class: usize, dest_class: usize) -> (r: Vec<u8>)
    ensures
        r@ == slabs_reassign_request(source_class, dest_class),
{
    let mut w: Vec<u8> = Vec::new();
    push_str(&mut w, "slabs reassign ");
    push_dec(&mut w, source_class as u64);
    push_str(&mut w, " ");
    push_dec(&mut w, dest_class as u64);
    push_str(&mut w, "\r\n");
    w
}

pub fn build_lru_crawler_metadump_cmd(arg: LruCrawlerMetadumpArg) -> (r: Vec<u8>)
    ensures
        r@ == lru_crawler_metadump_request(arg),
{
    let mut w: Vec<u8> = Vec::new();
    push_str(&mut w, "lru_crawler metadump ");
    match arg {
        LruCrawlerMetadumpArg::Classids(ids) => push_dec_list(&mut w, ids),
        LruCrawlerMetadumpArg::All => push_str(&mut w, "all"),
        LruCrawlerMetadumpArg::Hash => push_str(&mut w, "hash"),
    }
    push_str(&mut w, "\r\n");
    w
}

pub fn build_lru_crawler_mgdump_cmd(arg: LruCrawlerMgdumpArg) -> (r: Vec<u8>)
    ensures
        r@ == lru_crawler_mgdump_request(arg),
{
    let mut w: Vec<u8> = Vec::new();
    push_str(&mut w, "lru_crawler mgdump ");
    match arg {
        LruCrawlerMgdumpArg::Classids(ids) => push_dec_list(&mut w, ids),
        LruCrawlerMgdumpArg::All => push_str(&mut w, "all"),
        LruCrawlerMgdumpArg::Hash => push_str(&mut w, "hash"),
    }
    push_str(&mut w, "\r\n");
    w
}

pub fn build_mn_cmd() -> (r: &'static [u8])
    ensures
        r@ == mn_request(),
{
    "mn\r\n".as_bytes()
}

pub fn build_me_cmd(key: &[u8]) -> (r: Vec<u8>)
    ensures
        r@ == me_request(key@),
{
    let mut w: Vec<u8> = Vec::new();
    push_str(&mut w, "me ");
    push_bytes(&mut w, key);
    push_str(&mut w, "\r\n");
    w
}

pub fn build_watch_cmd(arg: &[WatchArg]) -> (r: Vec<u8>)
    ensures
        r@ == watch_request(arg@),
{
    let mut w: Vec<u8> = Vec::new();
    push_str(&mut w, "watch");
    let mut i: usize = 0;
    assert(watch_args_text(arg@.take(0)) =~= Seq::<u8>::empty());
    while i < arg.len()
        invariant
            0 <= i <= arg@.len(),
            w@ == b("watch") + watch_args_text(arg@.take(i as int)),
        decreases arg@.len() - i,
    {
        let text = match arg[i] {
            WatchArg::Fetchers => " fetchers",
            WatchArg::Mutations => " mutations",
            WatchArg::Evictions => " evictions",
            WatchArg::Connevents => " connevents",
            WatchArg::Proxyreqs => " proxyreqs",
            WatchArg::Proxyevents => " proxyevents",
            WatchArg::Proxyuser => " proxyuser",
            WatchArg::Deletions => " deletions",
        };
        push_str(&mut w, text);
        proof {
            let t = arg@.take(i + 1);
            assert(t.drop_last() =~= arg@.take(i as int));
            assert(t.last() == arg@[i as int]);
            assert(w@ =~= b("watch") + watch_args_text(t));
        }
        i += 1;
    }
    assert(arg@.take(arg@.len() as int) =~= arg@);
    push_str(&mut w, "\r\n");
    w
}

pub fn build_mc_cmd(command_name: &[u8], key: &[u8], flags: &[u8], data_block: Option<&[u8]>) -> (r:
    Vec<u8>)
    ensures
        r@ == mc_request(
            command_name@,
            key@,
            flags@,
            match data_block {
                Some(d) => Some(d@),
                None => None,
            },
        ),
{
    let mut w: Vec<u8> = Vec::new();
    push_bytes(&mut w, command_name);
    push_str(&mut w, " ");
    push_bytes(&mut w, key);
    match data_block {
        Some(a) => {
            push_str(&mut w, " ");
            push_dec(&mut w, a.len() as u64);
        },
        None => {},
    }
    push_bytes(&mut w, flags);
    push_str(&mut w, "\r\n");
    match data_block {
        Some(a) => {
            push_bytes(&mut w, a);
            push_str(&mut w, "\r\n");
        },
        None => {},
    }
    assert(w@ =~= mc_request(
        command_name@,
        key@,
        flags@,
        match data_block {
            Some(d) => Some(d@),
            None => None,
        },
    ));
    w
}

fn push_ms_flag(w: &mut Vec<u8>, flag: &MsFlag)
    ensures
        final(w)@ == old(w)@ + ms_flag_text(*flag),
{
    match flag {
        MsFlag::Base64Key => push_str(w, " b"),
        MsFlag::ReturnCas => push_str(w, " c"),
        MsFlag::CompareCas(token) => {
            push_str(w, " C");
            push_dec(w, *token);
        },
        MsFlag::NewCas(token) => {
            push_str(w, " E");
            push_dec(w, *token);
        },
        MsFlag::SetFlags(token) => {
            push_str(w, " F");
            push_dec(w, *token as u64);
        },
        MsFlag::Invalidate => push_str(w, " I"),
        MsFlag::ReturnKey => push_str(w, " k"),
        MsFlag::Opaque(token) => {
            push_str(w, " O");
            push_str(w, token.as_str());
        },
        MsFlag::ReturnSize => push_str(w, " s"),
        MsFlag::Ttl(token) => {
            push_str(w, " T");
            push_dec_int(w, *token);
        },
        MsFlag::Mode(MsMode::Add) => push_str(w, " ME"),
        MsFlag::Mode(MsMode::Append) => push_str(w, " MA"),
        MsFlag::Mode(MsMode::Prepend) => push_str(w, " MP"),
        MsFlag::Mode(MsMode::Replace) => push_str(w, " MR"),
        MsFlag::Mode(MsMode::Store) => push_str(w, " MS"),
        MsFlag::Autovivify(token) => {
            push_str(w, " N");
            push_dec_int(w, *token);
        },
    }
    assert(w@ =~= old(w)@ + ms_flag_text(*flag));
}

pub fn build_ms_flags(flags: &[MsFlag]) -> (r: Vec<u8>)
    ensures
        r@ == ms_flags_text(flags@),
{
    let mut w: Vec<u8> = Vec::new();
    let mut i: usize = 0;
    assert(ms_flags_text(flags@.take(0)) =~= Seq::<u8>::empty());
    while i < flags.len()
        invariant
            0 <= i <= flags@.len(),
            w@ == ms_flags_text(flags@.take(i as int)),
        decreases flags@.len() - i,
    {
        push_ms_flag(&mut w, &flags[i]);
        proof {
            let t = flags@.take(i + 1);
            assert(t.drop_last() =~= flags@.take(i as int));
            assert(t.last() == flags@[i as int]);
        }
        i += 1;
    }
    assert(flags@.take(flags@.len() as int) =~= flags@);
    w
}

fn push_mg_flag(w: &mut Vec<u8>, flag: &MgFlag)
    ensures
        final(w)@ == old(w)@ + mg_flag_text(*flag),
{
    match flag {
        MgFlag::Base64Key => push_str(w, " b"),
        MgFlag::ReturnCas => push_str(w, " c"),
        MgFlag::ReturnFlags => push_str(w, " f"),
        MgFlag::ReturnHit => push_str(w, " h"),
        MgFlag::ReturnKey => push_str(w, " k"),
        MgFlag::ReturnLastAccess => push_str(w, " l"),
        MgFlag::Opaque(token) => {
            push_str(w, " O");
            push_str(w, token.as_str());
        },
        MgFlag::ReturnSize => push_str(w, " s"),
        MgFlag::ReturnTtl => push_str(w, " t"),
        MgFlag::UnBump => push_str(w, " u"),
        MgFlag::ReturnValue => push_str(w, " v"),
        MgFlag::NewCas(token) => {
            push_str(w, " E");
            push_dec(w, *token);
        },
        MgFlag::Autovivify(token) => {
            push_str(w, " N");
            push_dec_int(w, *token);
        },
        MgFlag::RecacheTtl(token) => {
            push_str(w, " R");
            push_dec_int(w, *token);
        },
        MgFlag::UpdateTtl(token) => {
            push_str(w, " T");
            push_dec_int(w, *token);
        },
    }
    assert(w@ =~= old(w)@ + mg_flag_text(*flag));
}

pub fn build_mg_flags(flags: &[MgFlag]) -> (r: Vec<u8>)
    ensures
        r@ == mg_flags_text(flags@),
{
    let mut w: Vec<u8> = Vec::new();
    let mut i: usize = 0;
    assert(mg_flags_text(flags@.take(0)) =~= Seq::<u8>::empty());
    while i < flags.len()
        invariant
            0 <= i <= flags@.len(),
            w@ == mg_flags_text(flags@.take(i as int)),
        decreases flags@.len() - i,
    {
        push_mg_flag(&mut w, &flags[i]);
        proof {
            let t = flags@.take(i + 1);
            assert(t.drop_last() =~= flags@.take(i as int));
            assert(t.last() == flags@[i as int]);
        }
        i += 1;
    }
    assert(flags@.take(flags@.len() as int) =~= flags@);
    w
}

fn push_md_flag(w: &mut Vec<u8>, flag: &MdFlag)
    ensures
        final(w)@ == old(w)@ + md_flag_text(*flag),
{
    match flag {
        MdFlag::Base64Key => push_str(w, " b"),
        MdFlag::CompareCas(token) => {
            push_str(w, " C");
            push_dec(w, *token);
        },
        MdFlag::NewCas(token) => {
            push_str(w, " E");
            push_dec(w, *token);
        },
        MdFlag::Invalidate => push_str(w, " I"),
        MdFlag::ReturnKey => push_str(w, " k"),
        MdFlag::Opaque(token) => {
            push_str(w, " O");
            push_str(w, token.as_str());
        },
        MdFlag::UpdateTtl(token) => {
            push_str(w, " T");
            push_dec_int(w, *token);
        },
        MdFlag::LeaveKey => push_str(w, " x"),
    }
    assert(w@ =~= old(w)@ + md_flag_text(*flag));
}

pub fn build_md_flags(flags: &[MdFlag]) -> (r: Vec<u8>)
    ensures
        r@ == md_flags_text(flags@),
{
    let mut w: Vec<u8> = Vec::new();
    let mut i: usize = 0;
    assert(md_flags_text(flags@.take(0)) =~= Seq::<u8>::empty());
    while i < flags.len()
        invariant
            0 <= i <= flags@.len(),
            w@ == md_flags_text(flags@.take(i as int)),
        decreases flags@.len() - i,
    {
        push_md_flag(&mut w, &flags[i]);
        proof {
            let t = flags@.take(i + 1);
            assert(t.drop_last() =~= flags@.take(i as int));
            assert(t.last() == flags@[i as int]);
        }
        i += 1;
    }
    assert(flags@.take(flags@.len() as int) =~= flags@);
    w
}

fn push_ma_flag(w: &mut Vec<u8>, flag: &MaFlag)
    ensures
        final(w)@ == old(w)@ + ma_flag_text(*flag),
{
    match flag {
        MaFlag::Base64Key => push_str(w, " b"),
        MaFlag::CompareCas(token) => {
            push_str(w, " C");
            push_dec(w, *token);
        },
        MaFlag::NewCas(token) => {
            push_str(w, " E");
            push_dec(w, *token);
        },
        MaFlag::AutoCreate(token) => {
            push_str(w, " N");
            push_dec_int(w, *token);
        },
        MaFlag::InitValue(token) => {
            push_str(w, " J");
            push_dec(w, *token);
        },
        MaFlag::DeltaApply(token) => {
            push_str(w, " D");
            push_dec(w, *token);
        },
        MaFlag::UpdateTtl(token) => {
            push_str(w, " T");
            push_dec_int(w, *token);
        },
        MaFlag::Mode(MaMode::Incr) => push_str(w, " M+"),
        MaFlag::Mode(MaMode::Decr) => push_str(w, " M-"),
        MaFlag::Opaque(token) => {
            push_str(w, " O");
            push_str(w, token.as_str());
        },
        MaFlag::ReturnTtl => push_str(w, " t"),
        MaFlag::ReturnCas => push_str(w, " c"),
        MaFlag::ReturnValue => push_str(w, " v"),
        MaFlag::ReturnKey => push_str(w, " k"),
    }
    assert(w@ =~= old(w)@ + ma_flag_text(*flag));
}

pub fn build_ma_flags(flags: &[MaFlag]) -> (r: Vec<u8>)
    ensures
        r@ == ma_flags_text(flags@),
{
    let mut w: Vec<u8> = Vec::new();
    let mut i: usize = 0;
    assert(ma_flags_text(flags@.take(0)) =~= Seq::<u8>::empty());
    while i < flags.len()
        invariant
            0 <= i <= flags@.len(),
            w@ == ma_flags_text(flags@.take(i as int)),
        decreases flags@.len() - i,
    {
        push_ma_flag(&mut w, &flags[i]);
        proof {
            let t = flags@.take(i + 1);
            assert(t.drop_last() =~= flags@.take(i as int));
            assert(t.last() == flags@[i as int]);
        }
        i += 1;
    }
    assert(flags@.take(flags@.len() as int) =~= flags@);
    w
}

pub fn build_lru_cmd(arg: LruArg) -> (r: Vec<u8>)
    ensures
        r@ == lru_request(arg),
{
    let mut w: Vec<u8> = Vec::new();
    match &arg {
        LruArg::Tune { percent_hot, percent_warm, max_hot_factor, max_warm_factor } => {
            push_str(&mut w, "lru tune ");
            push_dec(&mut w, *percent_hot as u64);
            push_str(&mut w, " ");
            push_dec(&mut w, *percent_warm as u64);
            push_str(&mut w, " ");
            push_str(&mut w, max_hot_factor.as_str());
            push_str(&mut w, " ");
            push_str(&mut w, max_warm_factor.as_str());
            push_str(&mut w, "\r\n");
        },
        LruArg::Mode(LruMode::Flat) => push_str(&mut w, "lru mode flat\r\n"),
        LruArg::Mode(LruMode::Segmented) => push_str(&mut w, "lru mode segmented\r\n"),
        LruArg::TempTtl(ttl) => {
            push_str(&mut w, "lru temp_ttl ");
            push_dec_int(&mut w, *ttl);
            push_str(&mut w, "\r\n");
        },
    }
    assert(w@ =~= lru_request(arg));
    w
}

} // verus!
