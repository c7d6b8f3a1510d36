use std::collections::HashMap;

use mcmc_rs::commands::auth_cmd;
use mcmc_rs::commands::cache_memlimit_cmd;
use mcmc_rs::commands::delete_cmd;
use mcmc_rs::commands::flush_all_cmd;
use mcmc_rs::commands::incr_decr_cmd;
use mcmc_rs::commands::lru_cmd;
use mcmc_rs::commands::lru_crawler_cmd;
use mcmc_rs::commands::lru_crawler_crawl_cmd;
use mcmc_rs::commands::lru_crawler_metadump_cmd;
use mcmc_rs::commands::lru_crawler_mgdump_cmd;
use mcmc_rs::commands::lru_crawler_sleep_cmd;
use mcmc_rs::commands::lru_crawler_tocrawl_cmd;
use mcmc_rs::commands::ma_cmd;
use mcmc_rs::commands::md_cmd;
use mcmc_rs::commands::me_cmd;
use mcmc_rs::commands::mg_cmd;
use mcmc_rs::commands::mn_cmd;
use mcmc_rs::commands::ms_cmd;
use mcmc_rs::commands::quit_cmd;
use mcmc_rs::commands::retrieval_cmd;
use mcmc_rs::commands::shutdown_cmd;
use mcmc_rs::commands::slabs_automove_cmd;
use mcmc_rs::commands::slabs_reassign_cmd;
use mcmc_rs::commands::stats_cmd;
use mcmc_rs::commands::storage_cmd;
use mcmc_rs::commands::touch_cmd;
use mcmc_rs::commands::version_cmd;
use mcmc_rs::commands::watch_cmd;
use mcmc_rs::pipeline::execute_cmd;
use mcmc_rs::Connection;
use mcmc_rs::Item;
use mcmc_rs::LruArg;
use mcmc_rs::LruCrawlerArg;
use mcmc_rs::LruCrawlerCrawlArg;
use mcmc_rs::LruCrawlerMetadumpArg;
use mcmc_rs::LruCrawlerMgdumpArg;
use mcmc_rs::LruMode;
use mcmc_rs::MaFlag;
use mcmc_rs::MaItem;
use mcmc_rs::MaMode;
use mcmc_rs::MdFlag;
use mcmc_rs::MdItem;
use mcmc_rs::MgFlag;
use mcmc_rs::MgItem;
use mcmc_rs::MsFlag;
use mcmc_rs::MsItem;
use mcmc_rs::MsMode;
use mcmc_rs::PipelineResponse;
use mcmc_rs::SlabsAutomoveArg;
use mcmc_rs::StatsArg;
use mcmc_rs::WatchArg;

#[test]
fn test_version() {
    let mut c = Connection::new(b"version\r\nVERSION 1.2.3\r\n".to_vec());
    assert_eq!("1.2.3", version_cmd(&mut c).unwrap());

    let mut c = Connection::new(b"version\r\nERROR\r\n".to_vec());
    assert!(version_cmd(&mut c).is_err())
}

#[test]
fn test_quit() {
    let mut c = Connection::new(b"quit\r\n".to_vec());
    assert!(quit_cmd(&mut c).is_ok())
}

#[test]
fn test_shutdown() {
    let mut c = Connection::new(b"shutdown\r\n".to_vec());
    assert!(shutdown_cmd(&mut c, false).is_ok());

    let mut c = Connection::new(b"shutdown graceful\r\n".to_vec());
    assert!(shutdown_cmd(&mut c, true).is_ok())
}

#[test]
fn test_cache_memlimit() {
    let mut c = Connection::new(b"cache_memlimit 1\r\nOK\r\n".to_vec());
    assert!(cache_memlimit_cmd(&mut c, 1, false).is_ok());

    let mut c = Connection::new(b"cache_memlimit 1 noreply\r\n".to_vec());
    assert!(cache_memlimit_cmd(&mut c, 1, true).is_ok());

    let mut c = Connection::new(b"cache_memlimit 1\r\nERROR\r\n".to_vec());
    assert!(cache_memlimit_cmd(&mut c, 1, false).is_err());
}

#[test]
fn test_flush_all() {
    let mut c = Connection::new(b"flush_all\r\nOK\r\n".to_vec());
    assert!(flush_all_cmd(&mut c, None, false).is_ok());

    let mut c = Connection::new(b"flush_all 1 noreply\r\n".to_vec());
    assert!(flush_all_cmd(&mut c, Some(1), true).is_ok());

    let mut c = Connection::new(b"flush_all\r\nERROR\r\n".to_vec());
    assert!(flush_all_cmd(&mut c, None, false).is_err());
}

#[test]
fn test_storage() {
    let mut c = Connection::new(b"cas key 0 0 0 0\r\nvalue\r\nSTORED\r\n".to_vec());
    assert!(storage_cmd(&mut c, b"cas", b"key", 0, 0, Some(0), false, b"value").unwrap());

    let mut c = Connection::new(b"append key 0 0 0 noreply\r\nvalue\r\n".to_vec());
    assert!(storage_cmd(&mut c, b"append", b"key", 0, 0, None, true, b"value").unwrap());

    let mut c = Connection::new(b"prepend key 0 0 0\r\nvalue\r\nNOT_STORED\r\n".to_vec());
    assert!(!storage_cmd(&mut c, b"prepend", b"key", 0, 0, None, false, b"value").unwrap());

    let mut c = Connection::new(b"add key 0 0 0\r\nvalue\r\nERROR\r\n".to_vec());
    assert!(storage_cmd(&mut c, b"add", b"key", 0, 0, None, false, b"value").is_err())
}

#[test]
fn test_delete() {
    let mut c = Connection::new(b"delete key\r\nDELETED\r\n".to_vec());
    assert!(delete_cmd(&mut c, b"key", false).unwrap());

    let mut c = Connection::new(b"delete key\r\nNOT_FOUND\r\n".to_vec());
    assert!(!delete_cmd(&mut c, b"key", false).unwrap());

    let mut c = Connection::new(b"delete key noreply\r\n".to_vec());
    assert!(delete_cmd(&mut c, b"key", true).unwrap());

    let mut c = Connection::new(b"delete key\r\nERROR\r\n".to_vec());
    assert!(delete_cmd(&mut c, b"key", false).is_err());
}

#[test]
fn test_auth() {
    let mut c = Connection::new(b"set _ _ _ 3\r\na b\r\nSTORED\r\n".to_vec());
    assert!(auth_cmd(&mut c, b"a", b"b").is_ok());

    let mut c = Connection::new(b"set _ _ _ 3\r\na b\r\nERROR\r\n".to_vec());
    assert!(auth_cmd(&mut c, b"a", b"b").is_err());
}

#[test]
fn test_incr_decr() {
    let mut c = Connection::new(b"incr key 1\r\n2\r\n".to_vec());
    assert_eq!(
        incr_decr_cmd(&mut c, b"incr", b"key", 1, false).unwrap(),
        Some(2)
    );

    let mut c = Connection::new(b"incr key 1 noreply\r\n".to_vec());
    assert!(incr_decr_cmd(&mut c, b"incr", b"key", 1, true)
        .unwrap()
        .is_none(),);

    let mut c = Connection::new(b"incr key 1\r\nNOT_FOUND\r\n".to_vec());
    assert!(incr_decr_cmd(&mut c, b"incr", b"key", 1, false)
        .unwrap()
        .is_none());

    let mut c = Connection::new(b"incr key 1\r\nERROR\r\n".to_vec());
    assert!(incr_decr_cmd(&mut c, b"incr", b"key", 1, false).is_err());
}

#[test]
fn test_touch() {
    let mut c = Connection::new(b"touch key 0\r\nTOUCHED\r\n".to_vec());
    assert!(touch_cmd(&mut c, b"key", 0, false).unwrap());

    let mut c = Connection::new(b"touch key 0\r\nNOT_FOUND\r\n".to_vec());
    assert!(!touch_cmd(&mut c, b"key", 0, false).unwrap());

    let mut c = Connection::new(b"touch key 0 noreply\r\n".to_vec());
    assert!(touch_cmd(&mut c, b"key", 0, true).unwrap());

    let mut c = Connection::new(b"touch key 0\r\nERROR\r\n".to_vec());
    assert!(touch_cmd(&mut c, b"key", 0, false).is_err())
}

#[test]
fn test_retrieval() {
    let mut c = Connection::new(b"gets key\r\nEND\r\n".to_vec());
    assert_eq!(
        retrieval_cmd(&mut c, b"gets", None, &[b"key"]).unwrap(),
        vec![]
    );

    let mut c = Connection::new(b"gat 0 key\r\nVALUE key 0 1\r\na\r\nEND\r\n".to_vec());
    assert_eq!(
        retrieval_cmd(&mut c, b"gat", Some(0), &[b"key"]).unwrap(),
        vec![Item {
            key: "key".to_string(),
            flags: 0,
            cas_unique: None,
            data_block: b"a".to_vec(),
        }]
    );

    let mut c = Connection::new(
        b"gats 0 key key2\r\nVALUE key 0 1 0\r\na\r\nVALUE key2 0 1 0\r\na\r\nEND\r\n".to_vec(),
    );
    assert_eq!(
        retrieval_cmd(&mut c, b"gats", Some(0), &[b"key", b"key2"]).unwrap(),
        vec![
            Item {
                key: "key".to_string(),
                flags: 0,
                cas_unique: Some(0),
                data_block: b"a".to_vec()
            },
            Item {
                key: "key2".to_string(),
                flags: 0,
                cas_unique: Some(0),
                data_block: b"a".to_vec()
            }
        ]
    );

    let mut c = Connection::new(b"get key\r\nERROR\r\n".to_vec());
    assert!(retrieval_cmd(&mut c, b"get", None, &[b"key"]).is_err())
}

#[test]
fn test_stats() {
    let mut c =
        Connection::new(b"stats\r\nSTAT version 1.2.3\r\nSTAT threads 4\r\nEND\r\n".to_vec());
    assert_eq!(
        stats_cmd(&mut c, None)
            .unwrap()
            .into_iter()
            .collect::<HashMap<String, String>>(),
        HashMap::from([
            ("version".to_string(), "1.2.3".to_string()),
            ("threads".to_string(), "4".to_string()),
        ])
    );

    let mut c = Connection::new(b"stats settings\r\nERROR\r\n".to_vec());
    assert!(stats_cmd(&mut c, Some(StatsArg::Settings)).is_err());

    let mut c = Connection::new(b"stats items\r\nERROR\r\n".to_vec());
    assert!(stats_cmd(&mut c, Some(StatsArg::Items)).is_err());

    let mut c = Connection::new(b"stats sizes\r\nERROR\r\n".to_vec());
    assert!(stats_cmd(&mut c, Some(StatsArg::Sizes)).is_err());

    let mut c = Connection::new(b"stats slabs\r\nERROR\r\n".to_vec());
    assert!(stats_cmd(&mut c, Some(StatsArg::Slabs)).is_err());

    let mut c = Connection::new(b"stats conns\r\nERROR\r\n".to_vec());
    assert!(stats_cmd(&mut c, Some(StatsArg::Conns)).is_err())
}

#[test]
fn test_slabs_automove() {
    let mut c = Connection::new(b"slabs automove 0\r\nOK\r\n".to_vec());
    assert!(slabs_automove_cmd(&mut c, SlabsAutomoveArg::Zero).is_ok());

    let mut c = Connection::new(b"slabs automove 1\r\nERROR\r\n".to_vec());
    assert!(slabs_automove_cmd(&mut c, SlabsAutomoveArg::One).is_err());

    let mut c = Connection::new(b"slabs automove 2\r\nERROR\r\n".to_vec());
    assert!(slabs_automove_cmd(&mut c, SlabsAutomoveArg::Two).is_err())
}

#[test]
fn test_lru_crawler() {
    let mut c = Connection::new(b"lru_crawler enable\r\nOK\r\n".to_vec());
    assert!(lru_crawler_cmd(&mut c, LruCrawlerArg::Enable).is_ok());

    let mut c = Connection::new(b"lru_crawler disable\r\nERROR\r\n".to_vec());
    assert!(lru_crawler_cmd(&mut c, LruCrawlerArg::Disable).is_err())
}

#[test]
fn test_lru_crawler_sleep() {
    let mut c = Connection::new(b"lru_crawler sleep 1000000\r\nOK\r\n".to_vec());
    assert!(lru_crawler_sleep_cmd(&mut c, 1_000_000).is_ok());

    let mut c = Connection::new(b"lru_crawler sleep 0\r\nERROR\r\n".to_vec());
    assert!(lru_crawler_sleep_cmd(&mut c, 0).is_err())
}

#[test]
fn test_lru_crawler_tocrawl() {
    let mut c = Connection::new(b"lru_crawler tocrawl 0\r\nOK\r\n".to_vec());
    assert!(lru_crawler_tocrawl_cmd(&mut c, 0).is_ok());

    let mut c = Connection::new(b"lru_crawler tocrawl 0\r\nERROR\r\n".to_vec());
    assert!(lru_crawler_tocrawl_cmd(&mut c, 0).is_err())
}

#[test]
fn test_lru_crawler_crawl() {
    let mut c = Connection::new(b"lru_crawler crawl 1,2,3\r\nOK\r\n".to_vec());
    assert!(lru_crawler_crawl_cmd(&mut c, LruCrawlerCrawlArg::Classids(&[1, 2, 3])).is_ok());

    let mut c = Connection::new(b"lru_crawler crawl all\r\nERROR\r\n".to_vec());
    assert!(lru_crawler_crawl_cmd(&mut c, LruCrawlerCrawlArg::All).is_err())
}

#[test]
fn test_slabs_reassign() {
    let mut c = Connection::new(b"slabs reassign 1 10\r\nOK\r\n".to_vec());
    assert!(slabs_reassign_cmd(&mut c, 1, 10).is_ok());

    let mut c = Connection::new(b"slabs reassign 1 10\r\nERROR\r\n".to_vec());
    assert!(slabs_reassign_cmd(&mut c, 1, 10).is_err())
}

#[test]
fn test_lru_crawler_metadump() {
    let mut c = Connection::new(b"lru_crawler metadump all\r\nkey=key exp=-1 la=1745299782 cas=2 fetch=no cls=1 size=63 flags=0\r\nkey=key2 exp=-1 la=1745299782 cas=2 fetch=no cls=1 size=63 flags=0\r\nEND\r\n".to_vec());
    assert_eq!(
        lru_crawler_metadump_cmd(&mut c, LruCrawlerMetadumpArg::All).unwrap(),
        [
            "key=key exp=-1 la=1745299782 cas=2 fetch=no cls=1 size=63 flags=0",
            "key=key2 exp=-1 la=1745299782 cas=2 fetch=no cls=1 size=63 flags=0"
        ]
    );

    let mut c = Connection::new(b"lru_crawler metadump 1,2,3\r\nERROR\r\n".to_vec());
    assert!(lru_crawler_metadump_cmd(&mut c, LruCrawlerMetadumpArg::Classids(&[1, 2, 3])).is_err());

    let mut c = Connection::new(b"lru_crawler metadump hash\r\nERROR\r\n".to_vec());
    assert!(lru_crawler_metadump_cmd(&mut c, LruCrawlerMetadumpArg::Hash).is_err())
}

#[test]
fn test_lru_crawler_mgdump() {
    let mut c = Connection::new(b"lru_crawler mgdump 3\r\nmg key\r\nmg key2\r\nEN\r\n".to_vec());
    assert_eq!(
        lru_crawler_mgdump_cmd(&mut c, LruCrawlerMgdumpArg::Classids(&[3])).unwrap(),
        ["key", "key2"]
    );

    let mut c = Connection::new(b"lru_crawler mgdump all\r\nERROR\r\n".to_vec());
    assert!(lru_crawler_mgdump_cmd(&mut c, LruCrawlerMgdumpArg::All).is_err());

    let mut c = Connection::new(b"lru_crawler mgdump hash\r\nERROR\r\n".to_vec());
    assert!(lru_crawler_mgdump_cmd(&mut c, LruCrawlerMgdumpArg::Hash).is_err())
}

#[test]
fn test_mn() {
    let mut c = Connection::new(b"mn\r\nMN\r\n".to_vec());
    assert!(mn_cmd(&mut c).is_ok());

    let mut c = Connection::new(b"mn\r\nERROR\r\n".to_vec());
    assert!(mn_cmd(&mut c).is_err())
}

#[test]
fn test_me() {
    let mut c = Connection::new(b"me key\r\nEN\r\n".to_vec());
    assert!(me_cmd(&mut c, b"key").unwrap().is_none());

    let mut c =
        Connection::new(b"me key\r\nME key exp=-1 la=3 cas=2 fetch=no cls=1 size=63\r\n".to_vec());
    assert_eq!(
        me_cmd(&mut c, b"key").unwrap().unwrap(),
        "key exp=-1 la=3 cas=2 fetch=no cls=1 size=63"
    );

    let mut c = Connection::new(b"me key\r\nERROR\r\n".to_vec());
    assert!(me_cmd(&mut c, b"key").is_err());
}

#[test]
fn test_pipeline() {
    let cmds = [
        b"version\r\n".to_vec(),
        b"quit\r\n".to_vec(),
        b"shutdown\r\n".to_vec(),
        b"cache_memlimit 1\r\n".to_vec(),
        b"cache_memlimit 1 noreply\r\n".to_vec(),
        b"flush_all\r\n".to_vec(),
        b"flush_all 1 noreply\r\n".to_vec(),
        b"cas key 0 0 5 0\r\nvalue\r\n".to_vec(),
        b"append key 0 0 5 noreply\r\nvalue\r\n".to_vec(),
        b"delete key\r\n".to_vec(),
        b"delete key noreply\r\n".to_vec(),
        b"set _ _ _ 3\r\na b\r\n".to_vec(),
        b"incr key 1\r\n".to_vec(),
        b"incr key 1 noreply\r\n".to_vec(),
        b"touch key 0\r\n".to_vec(),
        b"touch key 0 noreply\r\n".to_vec(),
        b"gets key\r\n".to_vec(),
        b"get key key2\r\n".to_vec(),
        b"gat 0 key key2\r\n".to_vec(),
        b"gats 0 key\r\n".to_vec(),
        b"stats\r\n".to_vec(),
        b"slabs automove 0\r\n".to_vec(),
        b"lru_crawler enable\r\n".to_vec(),
        b"lru_crawler disable\r\n".to_vec(),
        b"lru_crawler sleep 1000000\r\n".to_vec(),
        b"lru_crawler tocrawl 0\r\n".to_vec(),
        b"lru_crawler crawl 1,2,3\r\n".to_vec(),
        b"slabs reassign 1 10\r\n".to_vec(),
        b"lru_crawler metadump all\r\n".to_vec(),
        b"lru_crawler mgdump 3\r\n".to_vec(),
        b"mn\r\n".to_vec(),
        b"me key\r\n".to_vec(),
        b"mg 44OG44K544OI b c f h k l Oopaque s t u E0 N0 R0 T0 v\r\n".to_vec(),
        b"ms 44OG44K544OI 2 b c C0 E0 F0 I k Oopaque s T0 MS N0\r\nhi\r\n".to_vec(),
        b"md 44OG44K544OI b C0 E0 I k Oopaque T0 x\r\n".to_vec(),
        b"ma 44OG44K544OI b C0 E0 N0 J0 D0 T0 M+ Oopaque t c v k\r\n".to_vec(),
        b"lru mode flat\r\n".to_vec(),
    ];
    let rps = [
        b"VERSION 1.2.3\r\n".to_vec(),
        b"OK\r\n".to_vec(),
        b"OK\r\n".to_vec(),
        b"STORED\r\n".to_vec(),
        b"DELETED\r\n".to_vec(),
        b"STORED\r\n".to_vec(),
        b"2\r\n".to_vec(),
        b"TOUCHED\r\n".to_vec(),
        b"END\r\n".to_vec(),
        b"END\r\n".to_vec(),
        b"VALUE key 0 1 0\r\na\r\nVALUE key2 0 1 0\r\na\r\nEND\r\n".to_vec(),
        b"VALUE key 0 1 0\r\na\r\nEND\r\n".to_vec(),
        b"STAT version 1.2.3\r\nSTAT threads 4\r\nEND\r\n".to_vec(),
        b"OK\r\n".to_vec(),
        b"OK\r\n".to_vec(),
        b"OK\r\n".to_vec(),
        b"OK\r\n".to_vec(),
        b"OK\r\n".to_vec(),
        b"OK\r\n".to_vec(),
        b"OK\r\n".to_vec(),
        b"key=key exp=-1 la=1745299782 cas=2 fetch=no cls=1 size=63 flags=0\r\nkey=key2 exp=-1 la=1745299782 cas=2 fetch=no cls=1 size=63 flags=0\r\nEND\r\n".to_vec(),
        b"mg key\r\nmg key2\r\nEN\r\n".to_vec(),
        b"MN\r\n".to_vec(),
        b"ME key exp=-1 la=3 cas=2 fetch=no cls=1 size=63\r\n".to_vec(),
        b"VA 1 b c0 f0 h0 k44OG44K544OI l0 Oopaque s0 t0 W X Z\r\nA\r\n".to_vec(),
        b"HD b c0 k44OG44K544OI Oopaque s0\r\n".to_vec(),
        b"HD k44OG44K544OI Oopaque b\r\n".to_vec(),
        b"VA 2 Oopaque t0 c0 k44OG44K544OI b\r\n10\r\n".to_vec(),
        b"OK\r\n".to_vec(),
    ];
    let mut c = Connection::new([cmds.concat(), rps.concat()].concat().to_vec());
    let mut got = execute_cmd(&mut c, &cmds).unwrap();
    match got.remove(20) {
        PipelineResponse::HashMap(pairs) => assert_eq!(
            pairs.into_iter().collect::<HashMap<String, String>>(),
            HashMap::from([
                ("threads".to_string(), "4".to_string()),
                ("version".to_string(), "1.2.3".to_string())
            ])
        ),
        other => panic!("{other:?}"),
    }
    assert_eq!(
        got,
        [
            PipelineResponse::String("1.2.3".to_string()),
            PipelineResponse::Unit(()),
            PipelineResponse::Unit(()),
            PipelineResponse::Unit(()),
            PipelineResponse::Unit(()),
            PipelineResponse::Unit(()),
            PipelineResponse::Unit(()),
            PipelineResponse::Bool(true),
            PipelineResponse::Bool(true),
            PipelineResponse::Bool(true),
            PipelineResponse::Bool(true),
            PipelineResponse::Unit(()),
            PipelineResponse::Value(Some(2)),
            PipelineResponse::Value(None),
            PipelineResponse::Bool(true),
            PipelineResponse::Bool(true),
            PipelineResponse::OptionItem(None),
            PipelineResponse::VecItem(Vec::new()),
            PipelineResponse::VecItem(vec![
                Item {
                    key: "key".to_string(),
                    flags: 0,
                    cas_unique: Some(0),
                    data_block: b"a".to_vec()
                },
                Item {
                    key: "key2".to_string(),
                    flags: 0,
                    cas_unique: Some(0),
                    data_block: b"a".to_vec()
                }
            ]),
            PipelineResponse::OptionItem(Some(Item {
                key: "key".to_string(),
                flags: 0,
                cas_unique: Some(0),
                data_block: b"a".to_vec()
            })),
            PipelineResponse::Unit(()),
            PipelineResponse::Unit(()),
            PipelineResponse::Unit(()),
            PipelineResponse::Unit(()),
            PipelineResponse::Unit(()),
            PipelineResponse::Unit(()),
            PipelineResponse::Unit(()),
            PipelineResponse::VecString(vec![
                "key=key exp=-1 la=1745299782 cas=2 fetch=no cls=1 size=63 flags=0".to_string(),
                "key=key2 exp=-1 la=1745299782 cas=2 fetch=no cls=1 size=63 flags=0".to_string()
            ]),
            PipelineResponse::VecString(vec!["key".to_string(), "key2".to_string()]),
            PipelineResponse::Unit(()),
            PipelineResponse::OptionString(Some(
                "key exp=-1 la=3 cas=2 fetch=no cls=1 size=63".to_string()
            )),
            PipelineResponse::MetaGet(MgItem {
                success: true,
                base64_key: true,
                cas: Some(0),
                flags: Some(0),
                hit: Some(0),
                key: Some("44OG44K544OI".to_string()),
                last_access_ttl: Some(0),
                opaque: Some("opaque".to_string()),
                size: Some(0),
                ttl: Some(0),
                data_block: Some(b"A".to_vec()),
                won_recache: true,
                stale: true,
                already_win: true
            }),
            PipelineResponse::MetaSet(MsItem {
                success: true,
                cas: Some(0),
                key: Some("44OG44K544OI".to_string()),
                opaque: Some("opaque".to_string()),
                size: Some(0),
                base64_key: true
            }),
            PipelineResponse::MetaDelete(MdItem {
                success: true,
                key: Some("44OG44K544OI".to_string()),
                opaque: Some("opaque".to_string()),
                base64_key: true
            }),
            PipelineResponse::MetaArithmetic(MaItem {
                success: true,
                opaque: Some("opaque".to_string()),
                ttl: Some(0),
                cas: Some(0),
                number: Some(10),
                key: Some("44OG44K544OI".to_string()),
                base64_key: true
            }),
            PipelineResponse::Unit(()),
        ]
    );

    let cmds = [b"version\r\n".to_vec(), b"quit\r\n".to_vec()];
    let rps = [b"ERROR\r\n".to_vec(), b"OK\r\n".to_vec()];
    let mut c = Connection::new([cmds.concat(), rps.concat()].concat().to_vec());
    assert!(execute_cmd(&mut c, &cmds).is_err());
}

#[test]
fn test_watch() {
    let mut c = Connection::new(b"watch fetchers mutations evictions connevents proxyreqs proxyevents proxyuser deletions\r\nOK\r\n".to_vec());
    assert!(watch_cmd(
        &mut c,
        &[
            WatchArg::Fetchers,
            WatchArg::Mutations,
            WatchArg::Evictions,
            WatchArg::Connevents,
            WatchArg::Proxyreqs,
            WatchArg::Proxyevents,
            WatchArg::Proxyuser,
            WatchArg::Deletions
        ]
    )
    .is_ok());

    let mut c = Connection::new(b"watch fetchers mutations\r\nERROR\r\n".to_vec());
    assert!(watch_cmd(&mut c, &[WatchArg::Fetchers, WatchArg::Mutations]).is_err());
}

#[test]
fn test_mg() {
    let mut c = Connection::new(b"mg key b\r\nEN b\r\n".to_vec());
    assert_eq!(
        mg_cmd(&mut c, b"key", &[MgFlag::Base64Key]).unwrap(),
        MgItem {
            success: false,
            base64_key: true,
            cas: None,
            flags: None,
            hit: None,
            key: None,
            last_access_ttl: None,
            opaque: None,
            size: None,
            ttl: None,
            data_block: None,
            already_win: false,
            won_recache: false,
            stale: false,
        }
    );

    let mut c = Connection::new(b"mg 44OG44K544OI b c f h k l Oopaque s t u E0 N0 R0 T0\r\nHD b c0 f0 h0 k44OG44K544OI l0 Oopaque s0 t0 W X Z\r\n".to_vec());
    assert_eq!(
        mg_cmd(
            &mut c,
            b"44OG44K544OI",
            &[
                MgFlag::Base64Key,
                MgFlag::ReturnCas,
                MgFlag::ReturnFlags,
                MgFlag::ReturnHit,
                MgFlag::ReturnKey,
                MgFlag::ReturnLastAccess,
                MgFlag::Opaque("opaque".to_string()),
                MgFlag::ReturnSize,
                MgFlag::ReturnTtl,
                MgFlag::UnBump,
                MgFlag::NewCas(0),
                MgFlag::Autovivify(0),
                MgFlag::RecacheTtl(0),
                MgFlag::UpdateTtl(0),
            ]
        )
        .unwrap(),
        MgItem {
            success: true,
            base64_key: true,
            cas: Some(0),
            flags: Some(0),
            hit: Some(0),
            key: Some("44OG44K544OI".to_string()),
            last_access_ttl: Some(0),
            opaque: Some("opaque".to_string()),
            size: Some(0),
            ttl: Some(0),
            data_block: None,
            already_win: true,
            won_recache: true,
            stale: true,
        }
    );

    let mut c = Connection::new(b"mg 44OG44K544OI b c f h k l Oopaque s t u E0 N0 R0 T0 v\r\nVA 1 b c0 f0 h0 k44OG44K544OI l0 Oopaque s0 t0 W X Z\r\nA\r\n".to_vec());
    assert_eq!(
        mg_cmd(
            &mut c,
            b"44OG44K544OI",
            &[
                MgFlag::Base64Key,
                MgFlag::ReturnCas,
                MgFlag::ReturnFlags,
                MgFlag::ReturnHit,
                MgFlag::ReturnKey,
                MgFlag::ReturnLastAccess,
                MgFlag::Opaque("opaque".to_string()),
                MgFlag::ReturnSize,
                MgFlag::ReturnTtl,
                MgFlag::UnBump,
                MgFlag::ReturnValue,
                MgFlag::NewCas(0),
                MgFlag::Autovivify(0),
                MgFlag::RecacheTtl(0),
                MgFlag::UpdateTtl(0),
            ]
        )
        .unwrap(),
        MgItem {
            success: true,
            base64_key: true,
            cas: Some(0),
            flags: Some(0),
            hit: Some(0),
            key: Some("44OG44K544OI".to_string()),
            last_access_ttl: Some(0),
            opaque: Some("opaque".to_string()),
            size: Some(0),
            ttl: Some(0),
            data_block: Some(b"A".to_vec()),
            already_win: true,
            won_recache: true,
            stale: true,
        }
    );

    let mut c = Connection::new(
        b"mg 44OG44K544OI b c f h k l Oopaque s t u E0 N0 R0 T0 v\r\nERROR\r\n".to_vec(),
    );
    assert!(mg_cmd(
        &mut c,
        b"44OG44K544OI",
        &[
            MgFlag::Base64Key,
            MgFlag::ReturnCas,
            MgFlag::ReturnFlags,
            MgFlag::ReturnHit,
            MgFlag::ReturnKey,
            MgFlag::ReturnLastAccess,
            MgFlag::Opaque("opaque".to_string()),
            MgFlag::ReturnSize,
            MgFlag::ReturnTtl,
            MgFlag::UnBump,
            MgFlag::ReturnValue,
            MgFlag::NewCas(0),
            MgFlag::Autovivify(0),
            MgFlag::RecacheTtl(0),
            MgFlag::UpdateTtl(0),
        ]
    )
    .is_err(),);
}

#[test]
fn test_ms() {
    let mut c = Connection::new(
        b"ms 44OG44K544OI 2 b c C0 E0 F0 I k Oopaque s T0 MP N0\r\nhi\r\nNF\r\n".to_vec(),
    );
    assert_eq!(
        ms_cmd(
            &mut c,
            b"44OG44K544OI",
            &[
                MsFlag::Base64Key,
                MsFlag::ReturnCas,
                MsFlag::CompareCas(0),
                MsFlag::NewCas(0),
                MsFlag::SetFlags(0),
                MsFlag::Invalidate,
                MsFlag::ReturnKey,
                MsFlag::Opaque("opaque".to_string()),
                MsFlag::ReturnSize,
                MsFlag::Ttl(0),
                MsFlag::Mode(MsMode::Prepend),
                MsFlag::Autovivify(0)
            ],
            b"hi"
        )
        .unwrap(),
        MsItem {
            success: false,
            cas: None,
            key: None,
            opaque: None,
            size: None,
            base64_key: false
        }
    );

    let mut c = Connection::new(b"ms 44OG44K544OI 2 MR\r\nhi\r\nEX\r\n".to_vec());
    assert_eq!(
        ms_cmd(
            &mut c,
            b"44OG44K544OI",
            &[MsFlag::Mode(MsMode::Replace)],
            b"hi"
        )
        .unwrap(),
        MsItem {
            success: false,
            cas: None,
            key: None,
            opaque: None,
            size: None,
            base64_key: false
        }
    );

    let mut c = Connection::new(
        b"ms 44OG44K544OI 2 b c C0 E0 F0 I k Oopaque s T0 ME N0\r\nhi\r\nNS\r\n".to_vec(),
    );
    assert_eq!(
        ms_cmd(
            &mut c,
            b"44OG44K544OI",
            &[
                MsFlag::Base64Key,
                MsFlag::ReturnCas,
                MsFlag::CompareCas(0),
                MsFlag::NewCas(0),
                MsFlag::SetFlags(0),
                MsFlag::Invalidate,
                MsFlag::ReturnKey,
                MsFlag::Opaque("opaque".to_string()),
                MsFlag::ReturnSize,
                MsFlag::Ttl(0),
                MsFlag::Mode(MsMode::Add),
                MsFlag::Autovivify(0)
            ],
            b"hi"
        )
        .unwrap(),
        MsItem {
            success: false,
            cas: None,
            key: None,
            opaque: None,
            size: None,
            base64_key: false
        }
    );

    let mut c = Connection::new(
        b"ms 44OG44K544OI 2 b c C0 E0 F0 I k Oopaque s T0 ME N0\r\nhi\r\nERROR\r\n".to_vec(),
    );
    assert!(ms_cmd(
        &mut c,
        b"44OG44K544OI",
        &[
            MsFlag::Base64Key,
            MsFlag::ReturnCas,
            MsFlag::CompareCas(0),
            MsFlag::NewCas(0),
            MsFlag::SetFlags(0),
            MsFlag::Invalidate,
            MsFlag::ReturnKey,
            MsFlag::Opaque("opaque".to_string()),
            MsFlag::ReturnSize,
            MsFlag::Ttl(0),
            MsFlag::Mode(MsMode::Append),
            MsFlag::Autovivify(0)
        ],
        b"hi"
    )
    .is_err());

    let mut c = Connection::new(
        b"ms 44OG44K544OI 2 b c C0 E0 F0 I k Oopaque s T0 MS N0\r\nhi\r\nHD b c0 k44OG44K544OI Oopaque s0\r\n".to_vec(),
    );
    assert_eq!(
        ms_cmd(
            &mut c,
            b"44OG44K544OI",
            &[
                MsFlag::Base64Key,
                MsFlag::ReturnCas,
                MsFlag::CompareCas(0),
                MsFlag::NewCas(0),
                MsFlag::SetFlags(0),
                MsFlag::Invalidate,
                MsFlag::ReturnKey,
                MsFlag::Opaque("opaque".to_string()),
                MsFlag::ReturnSize,
                MsFlag::Ttl(0),
                MsFlag::Mode(MsMode::Store),
                MsFlag::Autovivify(0)
            ],
            b"hi"
        )
        .unwrap(),
        MsItem {
            success: true,
            cas: Some(0),
            key: Some("44OG44K544OI".to_string()),
            opaque: Some("opaque".to_string()),
            size: Some(0),
            base64_key: true
        }
    );
}

#[test]
fn test_md() {
    let mut c = Connection::new(b"md 44OG44K544OI b C0 E0 I k Oopaque T0 x\r\nNF\r\n".to_vec());
    assert_eq!(
        md_cmd(
            &mut c,
            b"44OG44K544OI",
            &[
                MdFlag::Base64Key,
                MdFlag::CompareCas(0),
                MdFlag::NewCas(0),
                MdFlag::Invalidate,
                MdFlag::ReturnKey,
                MdFlag::Opaque("opaque".to_string()),
                MdFlag::UpdateTtl(0),
                MdFlag::LeaveKey,
            ]
        )
        .unwrap(),
        MdItem {
            success: false,
            key: None,
            opaque: None,
            base64_key: false,
        }
    );

    let mut c = Connection::new(b"md 44OG44K544OI\r\nEX\r\n".to_vec());
    assert_eq!(
        md_cmd(&mut c, b"44OG44K544OI", &[]).unwrap(),
        MdItem {
            success: false,
            key: None,
            opaque: None,
            base64_key: false,
        }
    );

    let mut c = Connection::new(
        b"md 44OG44K544OI b C0 E0 I k Oopaque T0 x\r\nHD k44OG44K544OI Oopaque b\r\n".to_vec(),
    );
    assert_eq!(
        md_cmd(
            &mut c,
            b"44OG44K544OI",
            &[
                MdFlag::Base64Key,
                MdFlag::CompareCas(0),
                MdFlag::NewCas(0),
                MdFlag::Invalidate,
                MdFlag::ReturnKey,
                MdFlag::Opaque("opaque".to_string()),
                MdFlag::UpdateTtl(0),
                MdFlag::LeaveKey,
            ]
        )
        .unwrap(),
        MdItem {
            success: true,
            key: Some("44OG44K544OI".to_string()),
            opaque: Some("opaque".to_string()),
            base64_key: true
        }
    );

    let mut c = Connection::new(b"md 44OG44K544OI b C0 E0 I k Oopaque T0 x\r\nERROR\r\n".to_vec());
    assert!(md_cmd(
        &mut c,
        b"44OG44K544OI",
        &[
            MdFlag::Base64Key,
            MdFlag::CompareCas(0),
            MdFlag::NewCas(0),
            MdFlag::Invalidate,
            MdFlag::ReturnKey,
            MdFlag::Opaque("opaque".to_string()),
            MdFlag::UpdateTtl(0),
            MdFlag::LeaveKey,
        ]
    )
    .is_err(),)
}

#[test]
fn test_ma() {
    let mut c = Connection::new(
        b"ma 44OG44K544OI b C0 E0 N0 J0 D0 T0 M+ Oopaque t c v k\r\nNF\r\n".to_vec(),
    );
    assert_eq!(
        ma_cmd(
            &mut c,
            b"44OG44K544OI",
            &[
                MaFlag::Base64Key,
                MaFlag::CompareCas(0),
                MaFlag::NewCas(0),
                MaFlag::AutoCreate(0),
                MaFlag::InitValue(0),
                MaFlag::DeltaApply(0),
                MaFlag::UpdateTtl(0),
                MaFlag::Mode(MaMode::Incr),
                MaFlag::Opaque("opaque".to_string()),
                MaFlag::ReturnTtl,
                MaFlag::ReturnCas,
                MaFlag::ReturnValue,
                MaFlag::ReturnKey,
            ],
        )
        .unwrap(),
        MaItem {
            success: false,
            opaque: None,
            ttl: None,
            cas: None,
            number: None,
            key: None,
            base64_key: false,
        }
    );

    let mut c = Connection::new(
    b"ma 44OG44K544OI b C0 E0 N0 J0 D0 T0 M+ Oopaque t c v k\r\nNS Oopaque t0 c0 k44OG44K544OI b\r\n"
        .to_vec(),
    );
    assert_eq!(
        ma_cmd(
            &mut c,
            b"44OG44K544OI",
            &[
                MaFlag::Base64Key,
                MaFlag::CompareCas(0),
                MaFlag::NewCas(0),
                MaFlag::AutoCreate(0),
                MaFlag::InitValue(0),
                MaFlag::DeltaApply(0),
                MaFlag::UpdateTtl(0),
                MaFlag::Mode(MaMode::Incr),
                MaFlag::Opaque("opaque".to_string()),
                MaFlag::ReturnTtl,
                MaFlag::ReturnCas,
                MaFlag::ReturnValue,
                MaFlag::ReturnKey,
            ],
        )
        .unwrap(),
        MaItem {
            success: false,
            opaque: Some("opaque".to_string()),
            ttl: Some(0),
            cas: Some(0),
            number: None,
            key: Some("44OG44K544OI".to_string()),
            base64_key: true,
        }
    );

    let mut c = Connection::new(b"ma 44OG44K544OI\r\nEX\r\n".to_vec());
    assert_eq!(
        ma_cmd(&mut c, b"44OG44K544OI", &[],).unwrap(),
        MaItem {
            success: false,
            opaque: None,
            ttl: None,
            cas: None,
            number: None,
            key: None,
            base64_key: false,
        }
    );
    let mut c = Connection::new(b"ma 44OG44K544OI\r\nHD\r\n".to_vec());
    assert_eq!(
        ma_cmd(&mut c, b"44OG44K544OI", &[],).unwrap(),
        MaItem {
            success: true,
            opaque: None,
            ttl: None,
            cas: None,
            number: None,
            key: None,
            base64_key: false,
        }
    );

    let mut c = Connection::new(
    b"ma 44OG44K544OI b C0 E0 N0 J0 D0 T0 M+ Oopaque t c v k\r\nVA 2 Oopaque t0 c0 k44OG44K544OI b\r\n10\r\n"
        .to_vec(),
    );
    assert_eq!(
        ma_cmd(
            &mut c,
            b"44OG44K544OI",
            &[
                MaFlag::Base64Key,
                MaFlag::CompareCas(0),
                MaFlag::NewCas(0),
                MaFlag::AutoCreate(0),
                MaFlag::InitValue(0),
                MaFlag::DeltaApply(0),
                MaFlag::UpdateTtl(0),
                MaFlag::Mode(MaMode::Incr),
                MaFlag::Opaque("opaque".to_string()),
                MaFlag::ReturnTtl,
                MaFlag::ReturnCas,
                MaFlag::ReturnValue,
                MaFlag::ReturnKey,
            ],
        )
        .unwrap(),
        MaItem {
            success: true,
            opaque: Some("opaque".to_string()),
            ttl: Some(0),
            cas: Some(0),
            number: Some(10),
            key: Some("44OG44K544OI".to_string()),
            base64_key: true,
        }
    );

    let mut c = Connection::new(
        b"ma 44OG44K544OI b C0 E0 N0 J0 D0 T0 M+ Oopaque t c v k\r\nERROR\r\n".to_vec(),
    );
    assert!(ma_cmd(
        &mut c,
        b"44OG44K544OI",
        &[
            MaFlag::Base64Key,
            MaFlag::CompareCas(0),
            MaFlag::NewCas(0),
            MaFlag::AutoCreate(0),
            MaFlag::InitValue(0),
            MaFlag::DeltaApply(0),
            MaFlag::UpdateTtl(0),
            MaFlag::Mode(MaMode::Decr),
            MaFlag::Opaque("opaque".to_string()),
            MaFlag::ReturnTtl,
            MaFlag::ReturnCas,
            MaFlag::ReturnValue,
            MaFlag::ReturnKey,
        ],
    )
    .is_err())
}

#[test]
fn test_lru() {
    let mut c = Connection::new(b"lru mode flat\r\nERROR\r\n".to_vec());
    assert!(lru_cmd(&mut c, LruArg::Mode(LruMode::Flat)).is_err());

    let mut c = Connection::new(b"lru mode segmented\r\nOK\r\n".to_vec());
    assert!(lru_cmd(&mut c, LruArg::Mode(LruMode::Segmented)).is_ok());

    let mut c = Connection::new(b"lru tune 10 25 0.1 2\r\nOK\r\n".to_vec());
    assert!(lru_cmd(
        &mut c,
        LruArg::Tune {
            percent_hot: 10,
            percent_warm: 25,
            max_hot_factor: format!("{}", 0.1_f32),
            max_warm_factor: format!("{}", 2.0_f32)
        }
    )
    .is_ok());

    let mut c = Connection::new(b"lru temp_ttl 0\r\nOK\r\n".to_vec());
    assert!(lru_cmd(&mut c, LruArg::TempTtl(0)).is_ok())
}
