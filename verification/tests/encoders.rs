use mcmc_rs::encode::build_auth_cmd;
use mcmc_rs::encode::build_cache_memlimit_cmd;
use mcmc_rs::encode::build_delete_cmd;
use mcmc_rs::encode::build_flush_all_cmd;
use mcmc_rs::encode::build_incr_decr_cmd;
use mcmc_rs::encode::build_lru_cmd;
use mcmc_rs::encode::build_lru_crawler_cmd;
use mcmc_rs::encode::build_lru_crawler_crawl_cmd;
use mcmc_rs::encode::build_lru_crawler_metadump_cmd;
use mcmc_rs::encode::build_lru_crawler_mgdump_cmd;
use mcmc_rs::encode::build_lru_crawler_sleep_cmd;
use mcmc_rs::encode::build_lru_crawler_tocrawl_cmd;
use mcmc_rs::encode::build_ma_flags;
use mcmc_rs::encode::build_mc_cmd;
use mcmc_rs::encode::build_md_flags;
use mcmc_rs::encode::build_me_cmd;
use mcmc_rs::encode::build_mg_flags;
use mcmc_rs::encode::build_mn_cmd;
use mcmc_rs::encode::build_ms_flags;
use mcmc_rs::encode::build_quit_cmd;
use mcmc_rs::encode::build_retrieval_cmd;
use mcmc_rs::encode::build_shutdown_cmd;
use mcmc_rs::encode::build_slabs_automove_cmd;
use mcmc_rs::encode::build_slabs_reassign_cmd;
use mcmc_rs::encode::build_stats_cmd;
use mcmc_rs::encode::build_storage_cmd;
use mcmc_rs::encode::build_touch_cmd;
use mcmc_rs::encode::build_version_cmd;
use mcmc_rs::encode::build_watch_cmd;
use mcmc_rs::text::parse_i64;
use mcmc_rs::text::parse_u32;
use mcmc_rs::text::parse_u64;
use mcmc_rs::text::parse_u8;
use mcmc_rs::text::parse_usize;
use mcmc_rs::text::push_dec;
use mcmc_rs::text::push_dec_int;
use mcmc_rs::text::push_dec_list;
use mcmc_rs::text::split_on;
use mcmc_rs::LruArg;
use mcmc_rs::LruCrawlerArg;
use mcmc_rs::LruCrawlerCrawlArg;
use mcmc_rs::LruCrawlerMetadumpArg;
use mcmc_rs::LruCrawlerMgdumpArg;
use mcmc_rs::LruMode;
use mcmc_rs::MaFlag;
use mcmc_rs::MaMode;
use mcmc_rs::MdFlag;
use mcmc_rs::MgFlag;
use mcmc_rs::MsFlag;
use mcmc_rs::MsMode;
use mcmc_rs::SlabsAutomoveArg;
use mcmc_rs::StatsArg;
use mcmc_rs::WatchArg;

#[test]
fn decimal_numbers_are_rendered_without_padding() {
    let mut w = Vec::new();
    push_dec(&mut w, 0);
    w.push(b' ');
    push_dec(&mut w, 7);
    w.push(b' ');
    push_dec(&mut w, 1_000_000);
    w.push(b' ');
    push_dec(&mut w, u64::MAX);
    assert_eq!(w, b"0 7 1000000 18446744073709551615");
}

#[test]
fn signed_numbers_carry_a_minus_sign() {
    let mut w = Vec::new();
    push_dec_int(&mut w, -1);
    w.push(b' ');
    push_dec_int(&mut w, 0);
    w.push(b' ');
    push_dec_int(&mut w, i64::MIN);
    w.push(b' ');
    push_dec_int(&mut w, i64::MAX);
    assert_eq!(w, b"-1 0 -9223372036854775808 9223372036854775807");
}

#[test]
fn class_ids_are_joined_by_commas() {
    let mut w = Vec::new();
    push_dec_list(&mut w, &[1, 2, 3]);
    assert_eq!(w, b"1,2,3");

    let mut w = Vec::new();
    push_dec_list(&mut w, &[42]);
    assert_eq!(w, b"42");

    let mut w = b"x".to_vec();
    push_dec_list(&mut w, &[]);
    assert_eq!(w, b"x");
}

#[test]
fn numbers_are_parsed_as_rust_parses_them() {
    assert_eq!(parse_u64(b"0"), Some(0));
    assert_eq!(parse_u64(b"007"), Some(7));
    assert_eq!(parse_u64(b"+5"), Some(5));
    assert_eq!(parse_u64(b"18446744073709551615"), Some(u64::MAX));
    assert_eq!(parse_u64(b"18446744073709551616"), None);
    assert_eq!(parse_u64(b""), None);
    assert_eq!(parse_u64(b"+"), None);
    assert_eq!(parse_u64(b"-1"), None);
    assert_eq!(parse_u64(b"1a"), None);
    assert_eq!(parse_u64(b" 1"), None);
    assert_eq!(parse_u32(b"4294967295"), Some(u32::MAX));
    assert_eq!(parse_u32(b"4294967296"), None);
    assert_eq!(parse_u8(b"255"), Some(255));
    assert_eq!(parse_u8(b"256"), None);
    assert_eq!(parse_usize(b"12"), Some(12));
    assert_eq!(parse_i64(b"-1"), Some(-1));
    assert_eq!(parse_i64(b"+1"), Some(1));
    assert_eq!(parse_i64(b"-9223372036854775808"), Some(i64::MIN));
    assert_eq!(parse_i64(b"9223372036854775807"), Some(i64::MAX));
    assert_eq!(parse_i64(b"9223372036854775808"), None);
    assert_eq!(parse_i64(b"-9223372036854775809"), None);
    assert_eq!(parse_i64(b"-"), None);
    assert_eq!(parse_i64(b"--1"), None);
}

#[test]
fn splitting_keeps_empty_pieces() {
    assert_eq!(split_on(b"a b", b' '), vec![b"a".to_vec(), b"b".to_vec()]);
    assert_eq!(split_on(b"", b' '), vec![b"".to_vec()]);
    assert_eq!(
        split_on(b" a  b ", b' '),
        vec![
            b"".to_vec(),
            b"a".to_vec(),
            b"".to_vec(),
            b"b".to_vec(),
            b"".to_vec()
        ]
    );
}

#[test]
fn storage_commands_are_exact() {
    assert_eq!(
        build_storage_cmd(b"set", b"key", 1, -1, None, false, b"value"),
        b"set key 1 -1 5\r\nvalue\r\n"
    );
    assert_eq!(
        build_storage_cmd(b"cas", b"key", 0, 0, Some(7), false, b""),
        b"cas key 0 0 0 7\r\n\r\n"
    );
    assert_eq!(
        build_storage_cmd(b"cas", b"k", 4294967295, 60, Some(9), true, b"a\r\nb"),
        b"cas k 4294967295 60 4 9 noreply\r\na\r\nb\r\n"
    );
    assert_eq!(
        build_storage_cmd(b"append", b"key", 0, 0, None, true, b"value"),
        b"append key 0 0 5 noreply\r\nvalue\r\n"
    );
}

#[test]
fn retrieval_commands_join_keys_with_one_space() {
    assert_eq!(build_retrieval_cmd(b"get", None, &[b"k1"]), b"get k1\r\n");
    assert_eq!(
        build_retrieval_cmd(b"gets", None, &[b"k1", b"k2", b"k3"]),
        b"gets k1 k2 k3\r\n"
    );
    assert_eq!(
        build_retrieval_cmd(b"gat", Some(-1), &[b"k1"]),
        b"gat -1 k1\r\n"
    );
    assert_eq!(
        build_retrieval_cmd(b"gats", Some(30), &[b"k1", b"k2"]),
        b"gats 30 k1 k2\r\n"
    );
    assert_eq!(build_retrieval_cmd(b"get", None, &[]), b"get \r\n");
}

#[test]
fn fixed_commands_are_exact() {
    assert_eq!(build_version_cmd(), b"version\r\n");
    assert_eq!(build_quit_cmd(), b"quit\r\n");
    assert_eq!(build_shutdown_cmd(false), b"shutdown\r\n");
    assert_eq!(build_shutdown_cmd(true), b"shutdown graceful\r\n");
    assert_eq!(build_mn_cmd(), b"mn\r\n");
    assert_eq!(
        build_lru_crawler_cmd(LruCrawlerArg::Enable),
        b"lru_crawler enable\r\n"
    );
    assert_eq!(
        build_lru_crawler_cmd(LruCrawlerArg::Disable),
        b"lru_crawler disable\r\n"
    );
}

#[test]
fn noreply_is_a_token_at_the_end_of_the_line() {
    assert_eq!(build_delete_cmd(b"key", false), b"delete key\r\n");
    assert_eq!(build_delete_cmd(b"key", true), b"delete key noreply\r\n");
    assert_eq!(
        build_incr_decr_cmd(b"incr", b"key", 1, true),
        b"incr key 1 noreply\r\n"
    );
    assert_eq!(
        build_incr_decr_cmd(b"decr", b"key", 18446744073709551615, false),
        b"decr key 18446744073709551615\r\n"
    );
    assert_eq!(
        build_touch_cmd(b"key", -1, true),
        b"touch key -1 noreply\r\n"
    );
    assert_eq!(build_touch_cmd(b"key", 0, false), b"touch key 0\r\n");
    assert_eq!(build_flush_all_cmd(None, true), b"flush_all noreply\r\n");
    assert_eq!(
        build_flush_all_cmd(Some(999), true),
        b"flush_all 999 noreply\r\n"
    );
    assert_eq!(build_flush_all_cmd(Some(-1), false), b"flush_all -1\r\n");
    assert_eq!(build_flush_all_cmd(None, false), b"flush_all\r\n");
    assert_eq!(
        build_cache_memlimit_cmd(10, true),
        b"cache_memlimit 10 noreply\r\n"
    );
    assert_eq!(
        build_cache_memlimit_cmd(10, false),
        b"cache_memlimit 10\r\n"
    );
}

#[test]
fn auth_is_a_set_of_the_underscore_key() {
    assert_eq!(build_auth_cmd(b"a", b"b"), b"set _ _ _ 3\r\na b\r\n");
    assert_eq!(
        build_auth_cmd(b"user", b"secret"),
        b"set _ _ _ 11\r\nuser secret\r\n"
    );
    assert_eq!(build_auth_cmd(b"", b""), b"set _ _ _ 1\r\n \r\n");
}

#[test]
fn administrative_commands_are_exact() {
    assert_eq!(build_stats_cmd(None), b"stats\r\n");
    assert_eq!(
        build_stats_cmd(Some(StatsArg::Settings)),
        b"stats settings\r\n"
    );
    assert_eq!(build_stats_cmd(Some(StatsArg::Items)), b"stats items\r\n");
    assert_eq!(build_stats_cmd(Some(StatsArg::Sizes)), b"stats sizes\r\n");
    assert_eq!(build_stats_cmd(Some(StatsArg::Slabs)), b"stats slabs\r\n");
    assert_eq!(build_stats_cmd(Some(StatsArg::Conns)), b"stats conns\r\n");
    assert_eq!(
        build_slabs_automove_cmd(SlabsAutomoveArg::Zero),
        b"slabs automove 0\r\n"
    );
    assert_eq!(
        build_slabs_automove_cmd(SlabsAutomoveArg::One),
        b"slabs automove 1\r\n"
    );
    assert_eq!(
        build_slabs_automove_cmd(SlabsAutomoveArg::Two),
        b"slabs automove 2\r\n"
    );
    assert_eq!(
        build_lru_crawler_sleep_cmd(1_000_000),
        b"lru_crawler sleep 1000000\r\n"
    );
    assert_eq!(
        build_lru_crawler_tocrawl_cmd(0),
        b"lru_crawler tocrawl 0\r\n"
    );
    assert_eq!(build_slabs_reassign_cmd(1, 10), b"slabs reassign 1 10\r\n");
    assert_eq!(
        build_lru_crawler_crawl_cmd(LruCrawlerCrawlArg::Classids(&[1, 2, 3])),
        b"lru_crawler crawl 1,2,3\r\n"
    );
    assert_eq!(
        build_lru_crawler_crawl_cmd(LruCrawlerCrawlArg::All),
        b"lru_crawler crawl all\r\n"
    );
    assert_eq!(
        build_lru_crawler_metadump_cmd(LruCrawlerMetadumpArg::Classids(&[4, 5])),
        b"lru_crawler metadump 4,5\r\n"
    );
    assert_eq!(
        build_lru_crawler_metadump_cmd(LruCrawlerMetadumpArg::All),
        b"lru_crawler metadump all\r\n"
    );
    assert_eq!(
        build_lru_crawler_metadump_cmd(LruCrawlerMetadumpArg::Hash),
        b"lru_crawler metadump hash\r\n"
    );
    assert_eq!(
        build_lru_crawler_mgdump_cmd(LruCrawlerMgdumpArg::Classids(&[3])),
        b"lru_crawler mgdump 3\r\n"
    );
    assert_eq!(
        build_lru_crawler_mgdump_cmd(LruCrawlerMgdumpArg::All),
        b"lru_crawler mgdump all\r\n"
    );
    assert_eq!(
        build_lru_crawler_mgdump_cmd(LruCrawlerMgdumpArg::Hash),
        b"lru_crawler mgdump hash\r\n"
    );
    assert_eq!(build_me_cmd(b"key"), b"me key\r\n");
}

#[test]
fn watch_lists_its_arguments_in_order() {
    assert_eq!(build_watch_cmd(&[]), b"watch\r\n");
    assert_eq!(
        build_watch_cmd(&[WatchArg::Mutations, WatchArg::Fetchers]),
        b"watch mutations fetchers\r\n"
    );
    assert_eq!(
        build_watch_cmd(&[
            WatchArg::Fetchers,
            WatchArg::Mutations,
            WatchArg::Evictions,
            WatchArg::Connevents,
            WatchArg::Proxyreqs,
            WatchArg::Proxyevents,
            WatchArg::Proxyuser,
            WatchArg::Deletions
        ]),
        b"watch fetchers mutations evictions connevents proxyreqs proxyevents proxyuser deletions\r\n"
    );
}

#[test]
fn lru_settings_are_exact() {
    assert_eq!(
        build_lru_cmd(LruArg::Mode(LruMode::Flat)),
        b"lru mode flat\r\n"
    );
    assert_eq!(
        build_lru_cmd(LruArg::Mode(LruMode::Segmented)),
        b"lru mode segmented\r\n"
    );
    assert_eq!(build_lru_cmd(LruArg::TempTtl(-1)), b"lru temp_ttl -1\r\n");
    assert_eq!(
        build_lru_cmd(LruArg::Tune {
            percent_hot: 10,
            percent_warm: 25,
            max_hot_factor: format!("{}", 0.1_f32),
            max_warm_factor: format!("{}", 2.0_f32),
        }),
        b"lru tune 10 25 0.1 2\r\n"
    );
}

#[test]
fn meta_set_flags_keep_the_order_given() {
    assert_eq!(build_ms_flags(&[]), b"");
    assert_eq!(
        build_ms_flags(&[
            MsFlag::Base64Key,
            MsFlag::ReturnCas,
            MsFlag::CompareCas(0),
            MsFlag::NewCas(1),
            MsFlag::SetFlags(2),
            MsFlag::Invalidate,
            MsFlag::ReturnKey,
            MsFlag::Opaque("opaque".to_string()),
            MsFlag::ReturnSize,
            MsFlag::Ttl(-1),
            MsFlag::Mode(MsMode::Store),
            MsFlag::Autovivify(3)
        ]),
        b" b c C0 E1 F2 I k Oopaque s T-1 MS N3"
    );
    assert_eq!(
        build_ms_flags(&[
            MsFlag::Mode(MsMode::Add),
            MsFlag::Mode(MsMode::Append),
            MsFlag::Mode(MsMode::Prepend),
            MsFlag::Mode(MsMode::Replace),
            MsFlag::Mode(MsMode::Store)
        ]),
        b" ME MA MP MR MS"
    );
    assert_eq!(
        build_ms_flags(&[MsFlag::ReturnKey, MsFlag::Base64Key, MsFlag::ReturnKey]),
        b" k b k"
    );
}

#[test]
fn meta_get_flags_keep_the_order_given() {
    assert_eq!(
        build_mg_flags(&[
            MgFlag::Base64Key,
            MgFlag::ReturnCas,
            MgFlag::ReturnFlags,
            MgFlag::ReturnHit,
            MgFlag::ReturnKey,
            MgFlag::ReturnLastAccess,
            MgFlag::Opaque("opaque".to_string()),
            MgFlag::ReturnSize,
            MgFlag::ReturnTtl,
            MgFlag::UnBump,
            MgFlag::ReturnValue,
            MgFlag::NewCas(0),
            MgFlag::Autovivify(-1),
            MgFlag::RecacheTtl(30),
            MgFlag::UpdateTtl(0),
        ]),
        b" b c f h k l Oopaque s t u v E0 N-1 R30 T0"
    );
}

#[test]
fn meta_delete_flags_keep_the_order_given() {
    assert_eq!(
        build_md_flags(&[
            MdFlag::Base64Key,
            MdFlag::CompareCas(5),
            MdFlag::NewCas(6),
            MdFlag::Invalidate,
            MdFlag::ReturnKey,
            MdFlag::Opaque("\u{e9}".to_string()),
            MdFlag::UpdateTtl(-1),
            MdFlag::LeaveKey,
        ]),
        b" b C5 E6 I k O\xc3\xa9 T-1 x"
    );
}

#[test]
fn meta_arithmetic_flags_keep_the_order_given() {
    assert_eq!(
        build_ma_flags(&[
            MaFlag::Base64Key,
            MaFlag::CompareCas(0),
            MaFlag::NewCas(0),
            MaFlag::AutoCreate(0),
            MaFlag::InitValue(10),
            MaFlag::DeltaApply(2),
            MaFlag::UpdateTtl(0),
            MaFlag::Mode(MaMode::Incr),
            MaFlag::Mode(MaMode::Decr),
            MaFlag::Opaque("opaque".to_string()),
            MaFlag::ReturnTtl,
            MaFlag::ReturnCas,
            MaFlag::ReturnValue,
            MaFlag::ReturnKey,
        ]),
        b" b C0 E0 N0 J10 D2 T0 M+ M- Oopaque t c v k"
    );
}

#[test]
fn meta_commands_carry_a_length_only_with_data() {
    assert_eq!(build_mc_cmd(b"mg", b"key", b" v", None), b"mg key v\r\n");
    assert_eq!(build_mc_cmd(b"md", b"key", b"", None), b"md key\r\n");
    assert_eq!(
        build_mc_cmd(b"ms", b"key", b" T0", Some(b"hi")),
        b"ms key 2 T0\r\nhi\r\n"
    );
    assert_eq!(
        build_mc_cmd(b"ms", b"key", b"", Some(b"")),
        b"ms key 0\r\n\r\n"
    );
    assert_eq!(build_mc_cmd(b"ma", b"key", b" M-", None), b"ma key M-\r\n");
}
