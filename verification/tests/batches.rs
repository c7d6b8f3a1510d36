use mcmc_rs::commands::build_single_cmd;
use mcmc_rs::encode::build_auth_cmd;
use mcmc_rs::encode::build_cache_memlimit_cmd;
use mcmc_rs::encode::build_delete_cmd;
use mcmc_rs::encode::build_flush_all_cmd;
use mcmc_rs::encode::build_incr_decr_cmd;
use mcmc_rs::encode::build_lru_cmd;
use mcmc_rs::encode::build_mc_cmd;
use mcmc_rs::encode::build_me_cmd;
use mcmc_rs::encode::build_retrieval_cmd;
use mcmc_rs::encode::build_storage_cmd;
use mcmc_rs::encode::build_touch_cmd;
use mcmc_rs::pipeline::build_pipeline_cmd;
use mcmc_rs::pipeline::classify;
use mcmc_rs::pipeline::count_byte;
use mcmc_rs::pipeline::execute_cmd;
use mcmc_rs::pipeline::parse_pipeline_rp;
use mcmc_rs::pipeline::parse_response_rp;
use mcmc_rs::pipeline::Shape;
use mcmc_rs::shard::route;
use mcmc_rs::ClientCrc32;
use mcmc_rs::Connection;
use mcmc_rs::Error;
use mcmc_rs::Item;
use mcmc_rs::LruArg;
use mcmc_rs::LruCrawlerArg;
use mcmc_rs::LruCrawlerCrawlArg;
use mcmc_rs::LruCrawlerMetadumpArg;
use mcmc_rs::LruCrawlerMgdumpArg;
use mcmc_rs::LruMode;
use mcmc_rs::MaFlag;
use mcmc_rs::MdFlag;
use mcmc_rs::MgFlag;
use mcmc_rs::MsFlag;
use mcmc_rs::PipelineResponse;
use mcmc_rs::SlabsAutomoveArg;
use mcmc_rs::StatsArg;
use mcmc_rs::WatchArg;

fn shape(cmd: &[u8]) -> String {
    match classify(cmd) {
        Shape::OptionItem => "item".to_string(),
        Shape::VecItem => "items".to_string(),
        Shape::Auth => "auth".to_string(),
        Shape::Storage { noreply } => format!("storage {noreply}"),
        Shape::Version => "version".to_string(),
        Shape::Delete { noreply } => format!("delete {noreply}"),
        Shape::Value { noreply } => format!("value {noreply}"),
        Shape::Touch { noreply } => format!("touch {noreply}"),
        Shape::Nothing => "nothing".to_string(),
        Shape::Done { noreply } => format!("done {noreply}"),
        Shape::Mn => "mn".to_string(),
        Shape::Stats => "stats".to_string(),
        Shape::Metadump => "metadump".to_string(),
        Shape::Mgdump => "mgdump".to_string(),
        Shape::MetaGet => "mg".to_string(),
        Shape::MetaSet => "ms".to_string(),
        Shape::MetaDelete => "md".to_string(),
        Shape::MetaArithmetic => "ma".to_string(),
        Shape::Me => "me".to_string(),
        Shape::Unknown => "unknown".to_string(),
    }
}

#[test]
fn a_command_tells_which_reply_it_calls_for() {
    assert_eq!(count_byte(b"a b  c", b' '), 3);
    assert_eq!(count_byte(b"", b' '), 0);
    assert_eq!(shape(b"get key\r\n"), "item");
    assert_eq!(shape(b"gets key\r\n"), "item");
    assert_eq!(shape(b"get key key2\r\n"), "items");
    assert_eq!(shape(b"gets k1 k2 k3\r\n"), "items");
    assert_eq!(shape(b"gat 0 key\r\n"), "item");
    assert_eq!(shape(b"gats -1 key\r\n"), "item");
    assert_eq!(shape(b"gat 0 key key2\r\n"), "items");
    assert_eq!(shape(b"gats 0 k1 k2\r\n"), "items");
    assert_eq!(shape(b"set _ _ _ 3\r\na b\r\n"), "auth");
    assert_eq!(shape(b"set key 0 0 5\r\nvalue\r\n"), "storage false");
    assert_eq!(shape(b"set key 0 0 5 noreply\r\nvalue\r\n"), "storage true");
    assert_eq!(shape(b"add key 0 0 7\r\nnoreply\r\n"), "storage false");
    assert_eq!(shape(b"replace key 0 0 1 noreply\r\na\r\n"), "storage true");
    assert_eq!(shape(b"append key 0 0 1\r\na\r\n"), "storage false");
    assert_eq!(shape(b"prepend key 0 0 1\r\na\r\n"), "storage false");
    assert_eq!(shape(b"cas key 0 0 1 9 noreply\r\na\r\n"), "storage true");
    assert_eq!(shape(b"version\r\n"), "version");
    assert_eq!(shape(b"delete key\r\n"), "delete false");
    assert_eq!(shape(b"delete key noreply\r\n"), "delete true");
    assert_eq!(shape(b"incr key 1\r\n"), "value false");
    assert_eq!(shape(b"decr key 1 noreply\r\n"), "value true");
    assert_eq!(shape(b"touch key 0\r\n"), "touch false");
    assert_eq!(shape(b"touch key 0 noreply\r\n"), "touch true");
    assert_eq!(shape(b"quit\r\n"), "nothing");
    assert_eq!(shape(b"shutdown\r\n"), "nothing");
    assert_eq!(shape(b"shutdown graceful\r\n"), "nothing");
    assert_eq!(shape(b"flush_all\r\n"), "done false");
    assert_eq!(shape(b"flush_all 1 noreply\r\n"), "done true");
    assert_eq!(shape(b"cache_memlimit 1\r\n"), "done false");
    assert_eq!(shape(b"cache_memlimit 1 noreply\r\n"), "done true");
    assert_eq!(shape(b"slabs automove 0\r\n"), "done false");
    assert_eq!(shape(b"slabs reassign 1 10\r\n"), "done false");
    assert_eq!(shape(b"lru_crawler sleep 1\r\n"), "done false");
    assert_eq!(shape(b"lru_crawler crawl all\r\n"), "done false");
    assert_eq!(shape(b"lru_crawler tocrawl 0\r\n"), "done false");
    assert_eq!(shape(b"lru_crawler enable\r\n"), "done false");
    assert_eq!(shape(b"lru_crawler disable\r\n"), "done false");
    assert_eq!(shape(b"mn\r\n"), "mn");
    assert_eq!(shape(b"stats\r\n"), "stats");
    assert_eq!(shape(b"stats items\r\n"), "stats");
    assert_eq!(shape(b"lru_crawler metadump all\r\n"), "metadump");
    assert_eq!(shape(b"lru_crawler mgdump hash\r\n"), "mgdump");
    assert_eq!(shape(b"mg key v\r\n"), "mg");
    assert_eq!(shape(b"ms key 2\r\nhi\r\n"), "ms");
    assert_eq!(shape(b"md key\r\n"), "md");
    assert_eq!(shape(b"ma key\r\n"), "ma");
    assert_eq!(shape(b"lru mode flat\r\n"), "done false");
    assert_eq!(shape(b"me key\r\n"), "me");
    assert_eq!(shape(b"watch fetchers\r\n"), "unknown");
    assert_eq!(shape(b""), "unknown");
    assert_eq!(shape(b"version"), "unknown");
}

#[test]
fn a_batch_is_written_whole_before_anything_is_read() {
    let cmds = [b"get a\r\n".to_vec(), b"delete b\r\n".to_vec()];
    assert_eq!(build_pipeline_cmd(&cmds), b"get a\r\ndelete b\r\n");
    assert_eq!(build_pipeline_cmd(&[]), b"");

    let mut c = Connection::new(Vec::new());
    assert_eq!(execute_cmd(&mut c, &cmds), Err(Error::Protocol(Vec::new())));
    assert_eq!(c.bytes(), b"get a\r\ndelete b\r\n");
    assert!(c.is_starved());
}

#[test]
fn a_batch_fails_as_a_whole() {
    let cmds = [
        b"delete a\r\n".to_vec(),
        b"incr b 1\r\n".to_vec(),
        b"touch c 0\r\n".to_vec(),
        b"mn\r\n".to_vec(),
    ];
    let mut c = Connection::new(b"DELETED\r\n5\r\nBOGUS\r\nMN\r\n".to_vec());
    assert_eq!(
        parse_pipeline_rp(&mut c, &cmds),
        Err(Error::Protocol(b"BOGUS\r\n".to_vec()))
    );
    assert_eq!(c.position(), 19);

    let mut c = Connection::new(b"DELETED\r\n5\r\nTOUCHED\r\nMN\r\n".to_vec());
    assert_eq!(
        parse_pipeline_rp(&mut c, &cmds),
        Ok(vec![
            PipelineResponse::Bool(true),
            PipelineResponse::Value(Some(5)),
            PipelineResponse::Bool(true),
            PipelineResponse::Unit(()),
        ])
    );

    let mut c = Connection::new(b"DELETED\r\n5\r\nTOUCHED\r\n".to_vec());
    assert!(parse_pipeline_rp(&mut c, &cmds).is_err());
}

#[test]
fn an_unknown_command_ends_the_batch_at_its_turn() {
    let cmds = [
        b"mn\r\n".to_vec(),
        b"bogus\r\n".to_vec(),
        b"mn\r\n".to_vec(),
    ];
    let mut c = Connection::new(b"MN\r\nMN\r\n".to_vec());
    assert_eq!(
        parse_pipeline_rp(&mut c, &cmds),
        Err(Error::UnknownCommand(b"bogus\r\n".to_vec()))
    );
    assert_eq!(c.position(), 4);
    let mut c = Connection::new(b"MN\r\n".to_vec());
    assert_eq!(
        parse_response_rp(&mut c, b"mn\r\n"),
        Ok(PipelineResponse::Unit(()))
    );
}

#[test]
fn a_single_key_retrieval_keeps_the_last_entry() {
    let mut c = Connection::new(b"VALUE a 0 1\r\nx\r\nVALUE b 0 1\r\ny\r\nEND\r\nEND\r\n".to_vec());
    assert_eq!(
        parse_response_rp(&mut c, b"get a\r\n"),
        Ok(PipelineResponse::OptionItem(Some(Item {
            key: "b".to_string(),
            flags: 0,
            cas_unique: None,
            data_block: b"y".to_vec()
        })))
    );
    assert_eq!(
        parse_response_rp(&mut c, b"gat 0 a\r\n"),
        Ok(PipelineResponse::OptionItem(None))
    );
}

#[test]
fn a_pipeline_collects_commands_in_order() {
    let mut c = Connection::new(Vec::new());
    let p = c
        .pipeline()
        .version()
        .quit()
        .shutdown(true)
        .cache_memlimit(1, true)
        .flush_all(Some(1), false)
        .set(b"k", 0, 0, false, b"v")
        .add(b"k", 0, 0, false, b"v")
        .replace(b"k", 0, 0, false, b"v")
        .append(b"k", 0, 0, false, b"v")
        .prepend(b"k", 0, 0, true, b"v")
        .cas(b"k", 0, 0, 5, false, b"v")
        .auth(b"a", b"b")
        .delete(b"k", true)
        .incr(b"k", 1, false)
        .decr(b"k", 2, true)
        .touch(b"k", -1, false)
        .get(b"k")
        .gets(b"k")
        .gat(1, b"k")
        .gats(2, b"k")
        .get_multi(&[b"k1", b"k2"])
        .gets_multi(&[b"k1", b"k2"])
        .gat_multi(3, &[b"k1", b"k2"])
        .gats_multi(4, &[b"k1", b"k2"])
        .stats(Some(StatsArg::Slabs))
        .slabs_automove(SlabsAutomoveArg::Two)
        .lru_crawler(LruCrawlerArg::Enable)
        .lru_crawler_sleep(5)
        .lru_crawler_tocrawl(6)
        .lru_crawler_crawl(LruCrawlerCrawlArg::Classids(&[1, 2]))
        .slabs_reassign(1, 2)
        .lru_crawler_metadump(LruCrawlerMetadumpArg::Hash)
        .lru_crawler_mgdump(LruCrawlerMgdumpArg::All)
        .mn()
        .me(b"k")
        .mg(b"k", &[MgFlag::ReturnValue])
        .ms(b"k", &[MsFlag::ReturnCas], b"hi")
        .md(b"k", &[MdFlag::LeaveKey])
        .ma(b"k", &[MaFlag::ReturnValue])
        .lru(LruArg::Mode(LruMode::Segmented));
    let want: Vec<&[u8]> = vec![
        b"version\r\n",
        b"quit\r\n",
        b"shutdown graceful\r\n",
        b"cache_memlimit 1 noreply\r\n",
        b"flush_all 1\r\n",
        b"set k 0 0 1\r\nv\r\n",
        b"add k 0 0 1\r\nv\r\n",
        b"replace k 0 0 1\r\nv\r\n",
        b"append k 0 0 1\r\nv\r\n",
        b"prepend k 0 0 1 noreply\r\nv\r\n",
        b"cas k 0 0 1 5\r\nv\r\n",
        b"set _ _ _ 3\r\na b\r\n",
        b"delete k noreply\r\n",
        b"incr k 1\r\n",
        b"decr k 2 noreply\r\n",
        b"touch k -1\r\n",
        b"get k\r\n",
        b"gets k\r\n",
        b"gat 1 k\r\n",
        b"gats 2 k\r\n",
        b"get k1 k2\r\n",
        b"gets k1 k2\r\n",
        b"gat 3 k1 k2\r\n",
        b"gats 4 k1 k2\r\n",
        b"stats slabs\r\n",
        b"slabs automove 2\r\n",
        b"lru_crawler enable\r\n",
        b"lru_crawler sleep 5\r\n",
        b"lru_crawler tocrawl 6\r\n",
        b"lru_crawler crawl 1,2\r\n",
        b"slabs reassign 1 2\r\n",
        b"lru_crawler metadump hash\r\n",
        b"lru_crawler mgdump all\r\n",
        b"mn\r\n",
        b"me k\r\n",
        b"mg k v\r\n",
        b"ms k 2 c\r\nhi\r\n",
        b"md k x\r\n",
        b"ma k v\r\n",
        b"lru mode segmented\r\n",
    ];
    assert_eq!(p.1, want);
}

#[test]
fn a_pipeline_executes_against_its_connection() {
    let mut c = Connection::new(Vec::new());
    assert_eq!(c.pipeline().execute(), Ok(Vec::new()));
    assert_eq!(c.position(), 0);
    assert_eq!(c.bytes(), b"");

    let script = b"set k 0 0 1\r\nv\r\nget k\r\ndelete k noreply\r\nmn\r\nSTORED\r\nVALUE k 0 1\r\nv\r\nEND\r\nMN\r\n";
    let mut c = Connection::new(script.to_vec());
    let got = c
        .pipeline()
        .set(b"k", 0, 0, false, b"v")
        .get(b"k")
        .delete(b"k", true)
        .mn()
        .execute();
    assert_eq!(
        got,
        Ok(vec![
            PipelineResponse::Bool(true),
            PipelineResponse::OptionItem(Some(Item {
                key: "k".to_string(),
                flags: 0,
                cas_unique: None,
                data_block: b"v".to_vec()
            })),
            PipelineResponse::Bool(true),
            PipelineResponse::Unit(()),
        ])
    );
    assert_eq!(c.position(), script.len());
    assert_eq!(c.bytes(), script);
}

#[test]
fn a_key_goes_to_the_connection_its_checksum_picks() {
    assert_eq!(crc32fast::hash(b"123456789"), 0xCBF4_3926);
    assert_eq!(route(b"123456789", 1), 0);
    assert_eq!(route(b"123456789", 2), 0);
    assert_eq!(route(b"123456789", 3), 2);
    assert_eq!(route(b"123456789", 7), (0xCBF4_3926_u32 % 7) as usize);
    assert_eq!(route(b"", 5), 0);
    for key in [b"a".as_slice(), b"key", b"another key"] {
        for size in 1..9 {
            let first = route(key, size);
            assert_eq!(first, crc32fast::hash(key) as usize % size);
            assert_eq!(
                route(b"other", size),
                crc32fast::hash(b"other") as usize % size
            );
            assert_eq!(route(key, size), first);
        }
    }
}

#[test]
fn a_sharded_client_forwards_to_one_connection() {
    let script = b"get 123456789\r\nVALUE 123456789 0 1\r\nv\r\nEND\r\n";
    let mut client = ClientCrc32::new(vec![
        Connection::new(script.to_vec()),
        Connection::new(script.to_vec()),
        Connection::new(script.to_vec()),
    ]);
    assert_eq!(client.route(b"123456789"), 2);
    let got = client.get(b"123456789").unwrap().unwrap();
    assert_eq!(got.key, "123456789");
    assert_eq!(client.0[0].position(), 0);
    assert_eq!(client.0[1].position(), 0);
    assert_eq!(client.0[2].position(), script.len());

    let mut client = ClientCrc32::new(vec![
        Connection::new(Vec::new()),
        Connection::new(Vec::new()),
    ]);
    assert_eq!(client.delete(b"123456789", true), Ok(true));
    assert_eq!(client.0[0].bytes(), b"delete 123456789 noreply\r\n");
    assert_eq!(client.0[1].bytes(), b"");
    assert!(client.set(b"123456789", 0, 0, false, b"v").is_err());
    assert_eq!(
        client.0[0].bytes(),
        b"delete 123456789 noreply\r\nset 123456789 0 0 1\r\nv\r\n"
    );
}

#[test]
fn every_sharded_command_reaches_its_connection() {
    let one = |script: &[u8]| ClientCrc32::new(vec![Connection::new(script.to_vec())]);
    assert!(one(b"gets k\r\nEND\r\n").gets(b"k").unwrap().is_none());
    assert!(one(b"gat 1 k\r\nEND\r\n").gat(1, b"k").unwrap().is_none());
    assert!(one(b"gats 1 k\r\nEND\r\n").gats(1, b"k").unwrap().is_none());
    assert!(one(b"add k 0 0 1\r\nv\r\nSTORED\r\n")
        .add(b"k", 0, 0, false, b"v")
        .unwrap());
    assert!(!one(b"replace k 0 0 1\r\nv\r\nNOT_STORED\r\n")
        .replace(b"k", 0, 0, false, b"v")
        .unwrap());
    assert!(one(b"append k 0 0 1\r\nv\r\nSTORED\r\n")
        .append(b"k", 0, 0, false, b"v")
        .unwrap());
    assert!(one(b"prepend k 0 0 1\r\nv\r\nSTORED\r\n")
        .prepend(b"k", 0, 0, false, b"v")
        .unwrap());
    assert!(!one(b"cas k 0 0 1 9\r\nv\r\nEXISTS\r\n")
        .cas(b"k", 0, 0, 9, false, b"v")
        .unwrap());
    assert_eq!(one(b"incr k 1\r\n8\r\n").incr(b"k", 1, false), Ok(Some(8)));
    assert_eq!(one(b"decr k 1\r\n6\r\n").decr(b"k", 1, false), Ok(Some(6)));
    assert_eq!(
        one(b"touch k 5\r\nTOUCHED\r\n").touch(b"k", 5, false),
        Ok(true)
    );
    assert_eq!(one(b"me k\r\nEN\r\n").me(b"k"), Ok(None));
    assert!(one(b"mg k v\r\nEN\r\n")
        .mg(b"k", &[MgFlag::ReturnValue])
        .is_ok());
    assert!(
        one(b"ms k 1 c\r\nv\r\nHD c1\r\n")
            .ms(b"k", &[MsFlag::ReturnCas], b"v")
            .unwrap()
            .success
    );
    assert!(!one(b"md k\r\nNF\r\n").md(b"k", &[]).unwrap().success);
    assert_eq!(
        one(b"ma k\r\nVA 1\r\n7\r\n").ma(b"k", &[]).unwrap().number,
        Some(7)
    );
}

#[test]
fn every_command_of_a_connection_is_an_exchange() {
    let on = |script: &[u8]| Connection::new(script.to_vec());
    assert_eq!(
        on(b"version\r\nVERSION 1\r\n").version(),
        Ok("1".to_string())
    );
    let mut c = on(b"");
    assert_eq!(c.quit(), Ok(()));
    assert_eq!(c.bytes(), b"quit\r\n");
    let mut c = on(b"");
    assert_eq!(c.shutdown(true), Ok(()));
    assert_eq!(c.bytes(), b"shutdown graceful\r\n");
    assert_eq!(
        on(b"cache_memlimit 9\r\nOK\r\n").cache_memlimit(9, false),
        Ok(())
    );
    assert_eq!(
        on(b"flush_all 3\r\nOK\r\n").flush_all(Some(3), false),
        Ok(())
    );
    assert_eq!(
        on(b"set k 0 0 1\r\nv\r\nSTORED\r\n").set(b"k", 0, 0, false, b"v"),
        Ok(true)
    );
    assert_eq!(
        on(b"add k 0 0 1\r\nv\r\nEXISTS\r\n").add(b"k", 0, 0, false, b"v"),
        Ok(false)
    );
    assert_eq!(
        on(b"replace k 0 0 1\r\nv\r\nSTORED\r\n").replace(b"k", 0, 0, false, b"v"),
        Ok(true)
    );
    assert_eq!(
        on(b"append k 0 0 1\r\nv\r\nSTORED\r\n").append(b"k", 0, 0, false, b"v"),
        Ok(true)
    );
    assert_eq!(
        on(b"prepend k 0 0 1\r\nv\r\nSTORED\r\n").prepend(b"k", 0, 0, false, b"v"),
        Ok(true)
    );
    assert_eq!(
        on(b"cas k 0 0 1 2\r\nv\r\nNOT_FOUND\r\n").cas(b"k", 0, 0, 2, false, b"v"),
        Ok(false)
    );
    assert_eq!(
        on(b"set _ _ _ 3\r\na b\r\nSTORED\r\n").auth(b"a", b"b"),
        Ok(())
    );
    assert_eq!(on(b"delete k\r\nDELETED\r\n").delete(b"k", false), Ok(true));
    assert_eq!(on(b"incr k 2\r\n4\r\n").incr(b"k", 2, false), Ok(Some(4)));
    assert_eq!(on(b"decr k 2\r\n0\r\n").decr(b"k", 2, false), Ok(Some(0)));
    assert_eq!(
        on(b"touch k 0\r\nNOT_FOUND\r\n").touch(b"k", 0, false),
        Ok(false)
    );
    let item = |cas| Item {
        key: "k".to_string(),
        flags: 1,
        cas_unique: cas,
        data_block: b"v".to_vec(),
    };
    assert_eq!(
        on(b"get k\r\nVALUE k 1 1\r\nv\r\nEND\r\n").get(b"k"),
        Ok(Some(item(None)))
    );
    assert_eq!(
        on(b"gets k\r\nVALUE k 1 1 9\r\nv\r\nEND\r\n").gets(b"k"),
        Ok(Some(item(Some(9))))
    );
    assert_eq!(
        on(b"gat 5 k\r\nVALUE k 1 1\r\nv\r\nEND\r\n").gat(5, b"k"),
        Ok(Some(item(None)))
    );
    assert_eq!(on(b"gats 5 k\r\nEND\r\n").gats(5, b"k"), Ok(None));
    assert_eq!(
        on(b"get k j\r\nVALUE k 1 1\r\nv\r\nEND\r\n").get_multi(&[b"k", b"j"]),
        Ok(vec![item(None)])
    );
    assert_eq!(
        on(b"gets k j\r\nEND\r\n").gets_multi(&[b"k", b"j"]),
        Ok(vec![])
    );
    assert_eq!(
        on(b"gat 1 k j\r\nEND\r\n").gat_multi(1, &[b"k", b"j"]),
        Ok(vec![])
    );
    assert_eq!(
        on(b"gats 1 k j\r\nVALUE k 1 1 9\r\nv\r\nEND\r\n").gats_multi(1, &[b"k", b"j"]),
        Ok(vec![item(Some(9))])
    );
    assert_eq!(
        on(b"stats conns\r\nSTAT a b\r\nEND\r\n").stats(Some(StatsArg::Conns)),
        Ok(vec![("a".to_string(), "b".to_string())])
    );
    assert_eq!(
        on(b"slabs automove 1\r\nOK\r\n").slabs_automove(SlabsAutomoveArg::One),
        Ok(())
    );
    assert_eq!(
        on(b"lru_crawler disable\r\nOK\r\n").lru_crawler(LruCrawlerArg::Disable),
        Ok(())
    );
    assert_eq!(
        on(b"lru_crawler sleep 1\r\nOK\r\n").lru_crawler_sleep(1),
        Ok(())
    );
    assert_eq!(
        on(b"lru_crawler tocrawl 2\r\nOK\r\n").lru_crawler_tocrawl(2),
        Ok(())
    );
    assert_eq!(
        on(b"lru_crawler crawl all\r\nOK\r\n").lru_crawler_crawl(LruCrawlerCrawlArg::All),
        Ok(())
    );
    assert_eq!(
        on(b"slabs reassign 1 2\r\nOK\r\n").slabs_reassign(1, 2),
        Ok(())
    );
    assert_eq!(
        on(b"lru_crawler metadump all\r\nkey=a\r\nEND\r\n")
            .lru_crawler_metadump(LruCrawlerMetadumpArg::All),
        Ok(vec!["key=a".to_string()])
    );
    assert_eq!(
        on(b"lru_crawler mgdump all\r\nmg a\r\nEN\r\n")
            .lru_crawler_mgdump(LruCrawlerMgdumpArg::All),
        Ok(vec!["a".to_string()])
    );
    assert_eq!(on(b"mn\r\nMN\r\n").mn(), Ok(()));
    assert_eq!(
        on(b"me k\r\nME k x\r\n").me(b"k"),
        Ok(Some("k x".to_string()))
    );
    assert!(on(b"mg k\r\nHD\r\n").mg(b"k", &[]).unwrap().success);
    assert!(
        on(b"ms k 1\r\nv\r\nHD\r\n")
            .ms(b"k", &[], b"v")
            .unwrap()
            .success
    );
    assert!(on(b"md k\r\nHD\r\n").md(b"k", &[]).unwrap().success);
    assert!(on(b"ma k\r\nHD\r\n").ma(b"k", &[]).unwrap().success);
    assert_eq!(
        on(b"lru temp_ttl 5\r\nOK\r\n").lru(LruArg::TempTtl(5)),
        Ok(())
    );

    let mut w = on(b"watch evictions\r\nOK\r\nline\r\n")
        .watch(&[WatchArg::Evictions])
        .unwrap();
    assert_eq!(w.message(), Ok(Some("line".to_string())));
    assert!(on(b"watch evictions\r\nERROR\r\n")
        .watch(&[WatchArg::Evictions])
        .is_err());
}

#[test]
fn a_rendered_command_calls_for_its_own_reply() {
    for verb in [
        b"set".as_slice(),
        b"add",
        b"replace",
        b"append",
        b"prepend",
        b"cas",
    ] {
        for noreply in [false, true] {
            for data in [b"".as_slice(), b"noreply", b"a\r\nnoreply"] {
                let cmd = build_storage_cmd(verb, b"_", 0, -1, Some(7), noreply, data);
                assert_eq!(shape(&cmd), format!("storage {noreply}"));
                let cmd = build_storage_cmd(verb, b"noreply", 1, 0, None, noreply, data);
                assert_eq!(shape(&cmd), format!("storage {noreply}"));
            }
        }
    }
    assert_eq!(shape(&build_auth_cmd(b"noreply", b"noreply")), "auth");
    for noreply in [false, true] {
        assert_eq!(
            shape(&build_delete_cmd(b"key", noreply)),
            format!("delete {noreply}")
        );
        assert_eq!(
            shape(&build_incr_decr_cmd(b"incr", b"noreply", 1, noreply)),
            format!("value {noreply}")
        );
        assert_eq!(
            shape(&build_incr_decr_cmd(b"decr", b"k", u64::MAX, noreply)),
            format!("value {noreply}")
        );
        assert_eq!(
            shape(&build_touch_cmd(b"noreply", -1, noreply)),
            format!("touch {noreply}")
        );
        assert_eq!(
            shape(&build_flush_all_cmd(None, noreply)),
            format!("done {noreply}")
        );
        assert_eq!(
            shape(&build_flush_all_cmd(Some(-5), noreply)),
            format!("done {noreply}")
        );
        assert_eq!(
            shape(&build_cache_memlimit_cmd(0, noreply)),
            format!("done {noreply}")
        );
    }
    assert_eq!(shape(&build_single_cmd(b"get", None, b"k")), "item");
    assert_eq!(shape(&build_single_cmd(b"gets", None, b"k")), "item");
    assert_eq!(shape(&build_single_cmd(b"gat", Some(-1), b"k")), "item");
    assert_eq!(shape(&build_single_cmd(b"gats", Some(9), b"k")), "item");
    assert_eq!(shape(&build_retrieval_cmd(b"get", None, &[b"k"])), "item");
    assert_eq!(shape(&build_retrieval_cmd(b"get", None, &[])), "item");
    assert_eq!(
        shape(&build_retrieval_cmd(b"gets", None, &[b"k", b"j"])),
        "items"
    );
    assert_eq!(
        shape(&build_retrieval_cmd(b"gat", Some(0), &[b"k", b"j", b"i"])),
        "items"
    );
    assert_eq!(
        shape(&build_retrieval_cmd(b"gats", Some(0), &[b"k"])),
        "item"
    );
    assert_eq!(shape(&build_me_cmd(b"noreply")), "me");
    assert_eq!(shape(&build_mc_cmd(b"mg", b"k", b" v", None)), "mg");
    assert_eq!(
        shape(&build_mc_cmd(b"ms", b"k", b"", Some(b"mn\r\n"))),
        "ms"
    );
    assert_eq!(shape(&build_mc_cmd(b"md", b"k", b" q", None)), "md");
    assert_eq!(shape(&build_mc_cmd(b"ma", b"k", b"", None)), "ma");
    assert_eq!(
        shape(&build_lru_cmd(LruArg::Tune {
            percent_hot: 1,
            percent_warm: 2,
            max_hot_factor: "0.5".to_string(),
            max_warm_factor: "2".to_string(),
        })),
        "done false"
    );
    assert_eq!(shape(&build_lru_cmd(LruArg::TempTtl(-1))), "done false");
}

#[test]
fn a_key_that_ends_in_the_token_passes_for_it() {
    assert_eq!(shape(&build_delete_cmd(b"noreply", false)), "delete true");
    assert_eq!(shape(&build_delete_cmd(b"xnoreply", false)), "delete true");
    assert_eq!(shape(&build_delete_cmd(b"noreplyx", false)), "delete false");
    assert_eq!(
        shape(&build_storage_cmd(b"set", b"_ _ _", 0, 0, None, false, b"")),
        "auth"
    );
    assert_eq!(
        shape(&build_retrieval_cmd(b"get", None, &[b"a b"])),
        "items"
    );
}
