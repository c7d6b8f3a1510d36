use mcmc_rs::client::WatchStream;
use mcmc_rs::decode::parse_auth_rp;
use mcmc_rs::decode::parse_delete_rp;
use mcmc_rs::decode::parse_incr_decr_rp;
use mcmc_rs::decode::parse_lru_crawler_metadump_rp;
use mcmc_rs::decode::parse_lru_crawler_mgdump_rp;
use mcmc_rs::decode::parse_me_rp;
use mcmc_rs::decode::parse_message_rp;
use mcmc_rs::decode::parse_mn_rp;
use mcmc_rs::decode::parse_ok_rp;
use mcmc_rs::decode::parse_retrieval_rp;
use mcmc_rs::decode::parse_stats_rp;
use mcmc_rs::decode::parse_storage_rp;
use mcmc_rs::decode::parse_touch_rp;
use mcmc_rs::decode::parse_version_rp;
use mcmc_rs::meta::parse_ma_rp;
use mcmc_rs::meta::parse_md_rp;
use mcmc_rs::meta::parse_mg_rp;
use mcmc_rs::meta::parse_ms_rp;
use mcmc_rs::text::is_text;
use mcmc_rs::text::to_text;
use mcmc_rs::Connection;
use mcmc_rs::Error;
use mcmc_rs::Item;
use mcmc_rs::MaItem;
use mcmc_rs::MdItem;
use mcmc_rs::MgItem;
use mcmc_rs::MsItem;

fn blank_mg(success: bool) -> MgItem {
    MgItem {
        success,
        base64_key: false,
        cas: None,
        flags: None,
        hit: None,
        key: None,
        last_access_ttl: None,
        opaque: None,
        size: None,
        ttl: None,
        data_block: None,
        won_recache: false,
        stale: false,
        already_win: false,
    }
}

#[test]
fn a_stream_reads_lines_and_blocks_from_its_position() {
    let mut c = Connection::new(b"ab\r\ncdef\r\ngh".to_vec());
    assert_eq!(c.position(), 0);
    assert!(!c.is_starved());
    assert_eq!(c.read_line(), Ok(b"ab\r\n".to_vec()));
    assert_eq!(c.position(), 4);
    assert_eq!(c.read_exact(3), Ok(b"cde".to_vec()));
    assert_eq!(c.position(), 7);
    assert_eq!(c.read_line(), Ok(b"f\r\n".to_vec()));
    assert!(!c.is_starved());
    assert_eq!(c.read_line(), Ok(b"gh".to_vec()));
    assert!(c.is_starved());
    assert_eq!(c.position(), 12);
    assert_eq!(c.read_line(), Ok(b"".to_vec()));
    assert_eq!(c.position(), 12);
    assert_eq!(c.bytes(), b"ab\r\ncdef\r\ngh");
}

#[test]
fn a_short_block_fails_and_starves_the_stream() {
    let mut c = Connection::new(b"abc".to_vec());
    assert_eq!(c.read_exact(4), Err(Error::UnexpectedEof));
    assert!(c.is_starved());
    assert_eq!(c.position(), 3);

    let mut c = Connection::new(b"abc\r".to_vec());
    assert_eq!(c.read_block(3), Err(Error::UnexpectedEof));
    assert_eq!(c.position(), 4);

    let mut c = Connection::new(b"abcXYrest".to_vec());
    assert_eq!(c.read_block(3), Ok(b"abc".to_vec()));
    assert_eq!(c.position(), 5);
    assert!(!c.is_starved());

    let mut c = Connection::new(b"abc".to_vec());
    assert_eq!(c.read_block(usize::MAX), Err(Error::UnexpectedEof));
    assert_eq!(c.read_exact(0), Ok(Vec::new()));
}

#[test]
fn a_write_replaces_and_extends() {
    let mut c = Connection::new(b"0123456789".to_vec());
    c.write_all(b"ab");
    assert_eq!(c.bytes(), b"ab23456789");
    assert_eq!(c.position(), 2);
    assert_eq!(c.read_exact(6), Ok(b"234567".to_vec()));
    c.write_all(b"wxyz");
    assert_eq!(c.bytes(), b"ab234567wxyz");
    assert_eq!(c.position(), 12);
    c.write_all(b"");
    assert_eq!(c.bytes(), b"ab234567wxyz");

    let mut c = Connection::new(Vec::new());
    c.write_all(b"version\r\n");
    assert_eq!(c.bytes(), b"version\r\n");
    assert_eq!(c.position(), 9);
}

#[test]
fn bytes_that_are_not_text_are_refused() {
    assert!(is_text(b"key"));
    assert!(is_text("\u{e9}".as_bytes()));
    assert!(!is_text(b"\xff"));
    assert!(!is_text(b"\xc3"));
    assert_eq!(to_text(b"\xc3\xa9"), Some("\u{e9}".to_string()));
    assert_eq!(to_text(b""), Some(String::new()));
    assert_eq!(to_text(b"a\xffb"), None);

    let mut c = Connection::new(b"STORED\xff\r\nSTORED\r\n".to_vec());
    assert_eq!(parse_storage_rp(&mut c, false), Err(Error::InvalidData));
    assert_eq!(c.position(), 9);
    assert_eq!(parse_storage_rp(&mut c, false), Ok(true));
}

#[test]
fn storage_status_is_true_for_stored_alone() {
    let mut c =
        Connection::new(b"STORED\r\nNOT_STORED\r\nEXISTS\r\nNOT_FOUND\r\nERROR\r\n".to_vec());
    assert_eq!(parse_storage_rp(&mut c, false), Ok(true));
    assert_eq!(parse_storage_rp(&mut c, false), Ok(false));
    assert_eq!(parse_storage_rp(&mut c, false), Ok(false));
    assert_eq!(parse_storage_rp(&mut c, false), Ok(false));
    assert_eq!(
        parse_storage_rp(&mut c, false),
        Err(Error::Protocol(b"ERROR\r\n".to_vec()))
    );
    assert_eq!(
        parse_storage_rp(&mut c, false),
        Err(Error::Protocol(Vec::new()))
    );
}

#[test]
fn a_bare_line_feed_is_no_terminator() {
    let mut c = Connection::new(b"STORED\n".to_vec());
    assert_eq!(
        parse_storage_rp(&mut c, false),
        Err(Error::Protocol(b"STORED\n".to_vec()))
    );
    let mut c = Connection::new(b"2\n".to_vec());
    assert_eq!(
        parse_incr_decr_rp(&mut c, false),
        Err(Error::Protocol(b"2\n".to_vec()))
    );
    let mut c = Connection::new(b"HD\n".to_vec());
    assert_eq!(parse_md_rp(&mut c), Err(Error::Protocol(b"HD\n".to_vec())));
    let mut c = Connection::new(b"STAT a b\nEND\r\n".to_vec());
    assert_eq!(
        parse_stats_rp(&mut c),
        Err(Error::Protocol(b"STAT a b\n".to_vec()))
    );
}

#[test]
fn a_reply_that_was_not_asked_for_is_not_read() {
    let mut c = Connection::new(b"ERROR\r\n".to_vec());
    assert_eq!(parse_storage_rp(&mut c, true), Ok(true));
    assert_eq!(parse_delete_rp(&mut c, true), Ok(true));
    assert_eq!(parse_incr_decr_rp(&mut c, true), Ok(None));
    assert_eq!(parse_touch_rp(&mut c, true), Ok(true));
    assert_eq!(parse_ok_rp(&mut c, true), Ok(()));
    assert_eq!(c.position(), 0);
    assert!(!c.is_starved());
    assert_eq!(c.bytes(), b"ERROR\r\n");
}

#[test]
fn single_line_replies_are_exact() {
    let mut c = Connection::new(
        b"DELETED\r\nNOT_FOUND\r\nTOUCHED\r\nNOT_FOUND\r\nOK\r\nMN\r\nSTORED\r\n".to_vec(),
    );
    assert_eq!(parse_delete_rp(&mut c, false), Ok(true));
    assert_eq!(parse_delete_rp(&mut c, false), Ok(false));
    assert_eq!(parse_touch_rp(&mut c, false), Ok(true));
    assert_eq!(parse_touch_rp(&mut c, false), Ok(false));
    assert_eq!(parse_ok_rp(&mut c, false), Ok(()));
    assert_eq!(parse_mn_rp(&mut c), Ok(()));
    assert_eq!(parse_auth_rp(&mut c), Ok(()));
    assert_eq!(c.position(), c.bytes().len());

    let mut c = Connection::new(b"TOUCHED\r\n".to_vec());
    assert_eq!(
        parse_delete_rp(&mut c, false),
        Err(Error::Protocol(b"TOUCHED\r\n".to_vec()))
    );
    let mut c = Connection::new(b"DELETED\r\n".to_vec());
    assert!(parse_touch_rp(&mut c, false).is_err());
    let mut c = Connection::new(b"ok\r\n".to_vec());
    assert!(parse_ok_rp(&mut c, false).is_err());
    let mut c = Connection::new(b"NOT_STORED\r\n".to_vec());
    assert!(parse_auth_rp(&mut c).is_err());
    let mut c = Connection::new(b"MN \r\n".to_vec());
    assert!(parse_mn_rp(&mut c).is_err());
}

#[test]
fn arithmetic_replies_are_numbers() {
    let mut c = Connection::new(
        b"2\r\nNOT_FOUND\r\n18446744073709551615\r\n18446744073709551616\r\n".to_vec(),
    );
    assert_eq!(parse_incr_decr_rp(&mut c, false), Ok(Some(2)));
    assert_eq!(parse_incr_decr_rp(&mut c, false), Ok(None));
    assert_eq!(parse_incr_decr_rp(&mut c, false), Ok(Some(u64::MAX)));
    assert_eq!(
        parse_incr_decr_rp(&mut c, false),
        Err(Error::Protocol(b"18446744073709551616\r\n".to_vec()))
    );
    let mut c = Connection::new(b"\r\n".to_vec());
    assert!(parse_incr_decr_rp(&mut c, false).is_err());
    let mut c = Connection::new(b"-1\r\n".to_vec());
    assert!(parse_incr_decr_rp(&mut c, false).is_err());
}

#[test]
fn version_is_the_text_after_the_word() {
    let mut c = Connection::new(b"VERSION 1.6.21\r\n".to_vec());
    assert_eq!(parse_version_rp(&mut c), Ok("1.6.21".to_string()));
    let mut c = Connection::new(b"VERSION \r\n".to_vec());
    assert_eq!(parse_version_rp(&mut c), Ok(String::new()));
    let mut c = Connection::new(b"VERSION\r\n".to_vec());
    assert_eq!(
        parse_version_rp(&mut c),
        Err(Error::Protocol(b"VERSION\r\n".to_vec()))
    );
    let mut c = Connection::new(b"VERSION 1.2.3".to_vec());
    assert!(parse_version_rp(&mut c).is_err());
    assert!(c.is_starved());
}

#[test]
fn retrieval_takes_exactly_the_declared_bytes() {
    let mut c = Connection::new(b"VALUE key 0 5\r\nhello\r\nEND\r\n".to_vec());
    assert_eq!(
        parse_retrieval_rp(&mut c),
        Ok(vec![Item {
            key: "key".to_string(),
            flags: 0,
            cas_unique: None,
            data_block: b"hello".to_vec(),
        }])
    );
    assert_eq!(c.position(), 27);
    assert!(!c.is_starved());
}

#[test]
fn retrieval_never_scans_for_a_terminator() {
    let mut c = Connection::new(b"VALUE k 7 9 3\r\nEND\r\n\r\nab\r\nEND\r\nSTORED\r\n".to_vec());
    assert_eq!(
        parse_retrieval_rp(&mut c),
        Ok(vec![Item {
            key: "k".to_string(),
            flags: 7,
            cas_unique: Some(3),
            data_block: b"END\r\n\r\nab".to_vec(),
        }])
    );
    assert_eq!(parse_storage_rp(&mut c, false), Ok(true));

    let mut c = Connection::new(b"VALUE k 0 2\r\nabXYEND\r\n".to_vec());
    assert_eq!(
        parse_retrieval_rp(&mut c),
        Ok(vec![Item {
            key: "k".to_string(),
            flags: 0,
            cas_unique: None,
            data_block: b"ab".to_vec(),
        }])
    );

    let mut c = Connection::new(b"VALUE k 0 0\r\n\r\nEND\r\n".to_vec());
    assert_eq!(
        parse_retrieval_rp(&mut c),
        Ok(vec![Item {
            key: "k".to_string(),
            flags: 0,
            cas_unique: None,
            data_block: Vec::new(),
        }])
    );
}

#[test]
fn retrieval_keeps_the_order_of_the_reply() {
    let mut c = Connection::new(b"VALUE k2 0 1\r\nb\r\nVALUE k1 0 1\r\na\r\nEND\r\n".to_vec());
    let items = parse_retrieval_rp(&mut c).unwrap();
    assert_eq!(items.len(), 2);
    assert_eq!(items[0].key, "k2");
    assert_eq!(items[0].data_block, b"b");
    assert_eq!(items[1].key, "k1");
    assert_eq!(items[1].data_block, b"a");
}

#[test]
fn a_malformed_retrieval_is_an_error() {
    let mut c = Connection::new(b"VALUE key 0\r\nEND\r\n".to_vec());
    assert_eq!(
        parse_retrieval_rp(&mut c),
        Err(Error::Protocol(b"VALUE key 0\r\n".to_vec()))
    );
    let mut c = Connection::new(b"VALUE key x 1\r\na\r\nEND\r\n".to_vec());
    assert_eq!(
        parse_retrieval_rp(&mut c),
        Err(Error::Protocol(b"VALUE key x 1\r\n".to_vec()))
    );
    let mut c = Connection::new(b"VALUE key 0 1 \r\na\r\nEND\r\n".to_vec());
    assert!(parse_retrieval_rp(&mut c).is_err());
    let mut c = Connection::new(b"VALUE key 0 4294967296 1\r\n".to_vec());
    assert_eq!(parse_retrieval_rp(&mut c), Err(Error::UnexpectedEof));
    let mut c = Connection::new(b"VALUE key 0 5\r\nhel".to_vec());
    assert_eq!(parse_retrieval_rp(&mut c), Err(Error::UnexpectedEof));
    assert!(c.is_starved());
    let mut c = Connection::new(b"VALUE key 0 1\r\na\r\n".to_vec());
    assert_eq!(parse_retrieval_rp(&mut c), Err(Error::Protocol(Vec::new())));
    let mut c = Connection::new(b"END\n".to_vec());
    assert!(parse_retrieval_rp(&mut c).is_err());
    let mut c = Connection::new(b"SERVER_ERROR out of memory\r\n".to_vec());
    assert_eq!(
        parse_retrieval_rp(&mut c),
        Err(Error::Protocol(b"SERVER_ERROR out of memory\r\n".to_vec()))
    );
}

#[test]
fn statistics_keep_each_name_once() {
    let mut c = Connection::new(
        b"STAT pid 1\r\nSTAT uptime 2\r\nSTAT pid 3\r\nSTAT version 1.6 extra\r\nEND\r\nrest"
            .to_vec(),
    );
    assert_eq!(
        parse_stats_rp(&mut c),
        Ok(vec![
            ("pid".to_string(), "3".to_string()),
            ("uptime".to_string(), "2".to_string()),
            ("version".to_string(), "1.6".to_string()),
        ])
    );
    assert_eq!(c.position(), c.bytes().len() - 4);

    let mut c = Connection::new(b"END\r\n".to_vec());
    assert_eq!(parse_stats_rp(&mut c), Ok(Vec::new()));
    let mut c = Connection::new(b"STAT pid\r\nEND\r\n".to_vec());
    assert_eq!(
        parse_stats_rp(&mut c),
        Err(Error::Protocol(b"STAT pid\r\n".to_vec()))
    );
    let mut c = Connection::new(b"STAT pid 1\r\n".to_vec());
    assert_eq!(parse_stats_rp(&mut c), Err(Error::Protocol(Vec::new())));
    let mut c = Connection::new(b"STAT pid 1\r\nERROR\r\n".to_vec());
    assert_eq!(
        parse_stats_rp(&mut c),
        Err(Error::Protocol(b"ERROR\r\n".to_vec()))
    );
}

#[test]
fn dumps_end_with_their_sentinel() {
    let mut c = Connection::new(b"key=a exp=-1\r\nkey=b exp=0 \r\nEND\r\n".to_vec());
    assert_eq!(
        parse_lru_crawler_metadump_rp(&mut c),
        Ok(vec!["key=a exp=-1".to_string(), "key=b exp=0 ".to_string()])
    );
    let mut c = Connection::new(b"key=a\r\nEN\r\n".to_vec());
    assert_eq!(
        parse_lru_crawler_metadump_rp(&mut c),
        Err(Error::Protocol(b"EN\r\n".to_vec()))
    );
    let mut c = Connection::new(b"key=a".to_vec());
    assert_eq!(
        parse_lru_crawler_metadump_rp(&mut c),
        Err(Error::Protocol(b"key=a".to_vec()))
    );

    let mut c = Connection::new(b"mg a\r\nmg b c\r\nEN\r\n".to_vec());
    assert_eq!(
        parse_lru_crawler_mgdump_rp(&mut c),
        Ok(vec!["a".to_string(), "b".to_string()])
    );
    let mut c = Connection::new(b"mg a\r\nEND\r\n".to_vec());
    assert_eq!(
        parse_lru_crawler_mgdump_rp(&mut c),
        Err(Error::Protocol(b"END\r\n".to_vec()))
    );
    let mut c = Connection::new(b"EN\r\n".to_vec());
    assert_eq!(parse_lru_crawler_mgdump_rp(&mut c), Ok(Vec::new()));
}

#[test]
fn the_debug_line_is_the_text_after_the_marker() {
    let mut c = Connection::new(b"ME key exp=-1\r\nEN\r\nME\r\n".to_vec());
    assert_eq!(parse_me_rp(&mut c), Ok(Some("key exp=-1".to_string())));
    assert_eq!(parse_me_rp(&mut c), Ok(None));
    assert_eq!(
        parse_me_rp(&mut c),
        Err(Error::Protocol(b"ME\r\n".to_vec()))
    );
    let mut c = Connection::new(b"ME \r\n".to_vec());
    assert_eq!(parse_me_rp(&mut c), Ok(Some(String::new())));
}

#[test]
fn meta_get_reads_the_flags_that_came() {
    let mut c = Connection::new(b"HD b c7 Ox\r\n".to_vec());
    let mut want = blank_mg(true);
    want.base64_key = true;
    want.cas = Some(7);
    want.opaque = Some("x".to_string());
    assert_eq!(parse_mg_rp(&mut c), Ok(want));
    assert_eq!(c.position(), 12);
}

#[test]
fn meta_get_keeps_absent_flags_absent() {
    let mut c = Connection::new(b"HD\r\nEN\r\nHD k\r\nHD t-1 t5\r\n".to_vec());
    assert_eq!(parse_mg_rp(&mut c), Ok(blank_mg(true)));
    assert_eq!(parse_mg_rp(&mut c), Ok(blank_mg(false)));
    let mut want = blank_mg(true);
    want.key = Some(String::new());
    assert_eq!(parse_mg_rp(&mut c), Ok(want));
    let mut want = blank_mg(true);
    want.ttl = Some(5);
    assert_eq!(parse_mg_rp(&mut c), Ok(want));
}

#[test]
fn meta_get_reads_its_payload_by_length() {
    let mut c = Connection::new(b"VA 4 s4 f1 h1 l2\r\na\r\nb\r\nHD\r\n".to_vec());
    let mut want = blank_mg(true);
    want.size = Some(4);
    want.flags = Some(1);
    want.hit = Some(1);
    want.last_access_ttl = Some(2);
    want.data_block = Some(b"a\r\nb".to_vec());
    assert_eq!(parse_mg_rp(&mut c), Ok(want));
    assert_eq!(parse_mg_rp(&mut c), Ok(blank_mg(true)));

    let mut c = Connection::new(b"VA 0\r\n\r\n".to_vec());
    let mut want = blank_mg(true);
    want.data_block = Some(Vec::new());
    assert_eq!(parse_mg_rp(&mut c), Ok(want));

    let mut c = Connection::new(b"VA 3\r\nab".to_vec());
    assert_eq!(parse_mg_rp(&mut c), Err(Error::UnexpectedEof));
    let mut c = Connection::new(b"VA\r\n".to_vec());
    assert_eq!(
        parse_mg_rp(&mut c),
        Err(Error::Protocol(b"VA\r\n".to_vec()))
    );
    let mut c = Connection::new(b"VA x\r\n".to_vec());
    assert!(parse_mg_rp(&mut c).is_err());
}

#[test]
fn an_unknown_flag_is_refused() {
    let mut c = Connection::new(b"HD q1\r\n".to_vec());
    assert_eq!(
        parse_mg_rp(&mut c),
        Err(Error::Protocol(b"HD q1\r\n".to_vec()))
    );
    let mut c = Connection::new(b"HD  b\r\n".to_vec());
    assert_eq!(
        parse_mg_rp(&mut c),
        Err(Error::Protocol(b"HD  b\r\n".to_vec()))
    );
    let mut c = Connection::new(b"HD cx\r\n".to_vec());
    assert!(parse_mg_rp(&mut c).is_err());
    let mut c = Connection::new(b"HD h256\r\n".to_vec());
    assert!(parse_mg_rp(&mut c).is_err());
    let mut c = Connection::new(b"HDX\r\n".to_vec());
    assert!(parse_mg_rp(&mut c).is_err());
    let mut c = Connection::new(b"NS\r\n".to_vec());
    assert!(parse_mg_rp(&mut c).is_err());
    let mut c = Connection::new(b"HD W\r\n".to_vec());
    assert!(parse_ms_rp(&mut c).is_err());
    let mut c = Connection::new(b"HD c1\r\n".to_vec());
    assert!(parse_md_rp(&mut c).is_err());
    let mut c = Connection::new(b"HD s1\r\n".to_vec());
    assert!(parse_ma_rp(&mut c).is_err());
    let mut c = Connection::new(b"EN\r\n".to_vec());
    assert!(parse_ms_rp(&mut c).is_err());
    let mut c = Connection::new(b"NS\r\n".to_vec());
    assert!(parse_md_rp(&mut c).is_err());
    let mut c = Connection::new(b"VA 1\r\n1\r\n".to_vec());
    assert!(parse_ms_rp(&mut c).is_err());
}

#[test]
fn meta_set_and_delete_read_their_status() {
    let mut c = Connection::new(b"HD c1 kk Oo s2 b\r\nNS\r\nEX\r\nNF\r\n".to_vec());
    assert_eq!(
        parse_ms_rp(&mut c),
        Ok(MsItem {
            success: true,
            cas: Some(1),
            key: Some("k".to_string()),
            opaque: Some("o".to_string()),
            size: Some(2),
            base64_key: true
        })
    );
    for _ in 0..3 {
        assert_eq!(
            parse_ms_rp(&mut c),
            Ok(MsItem {
                success: false,
                cas: None,
                key: None,
                opaque: None,
                size: None,
                base64_key: false
            })
        );
    }
    let mut c = Connection::new(b"HD kk Oo b\r\nNF\r\nEX Oo\r\n".to_vec());
    assert_eq!(
        parse_md_rp(&mut c),
        Ok(MdItem {
            success: true,
            key: Some("k".to_string()),
            opaque: Some("o".to_string()),
            base64_key: true
        })
    );
    assert_eq!(
        parse_md_rp(&mut c),
        Ok(MdItem {
            success: false,
            key: None,
            opaque: None,
            base64_key: false
        })
    );
    assert_eq!(
        parse_md_rp(&mut c),
        Ok(MdItem {
            success: false,
            key: None,
            opaque: Some("o".to_string()),
            base64_key: false
        })
    );
}

#[test]
fn meta_arithmetic_reads_a_number_as_payload() {
    let blank = |success: bool| MaItem {
        success,
        opaque: None,
        ttl: None,
        cas: None,
        number: None,
        key: None,
        base64_key: false,
    };
    let mut c = Connection::new(b"VA 2 t-1\r\n10\r\nVA 1\r\n10\r\nHD\r\nNF\r\n".to_vec());
    let mut want = blank(true);
    want.ttl = Some(-1);
    want.number = Some(10);
    assert_eq!(parse_ma_rp(&mut c), Ok(want));
    let mut want = blank(true);
    want.number = Some(1);
    assert_eq!(parse_ma_rp(&mut c), Ok(want));
    assert_eq!(parse_ma_rp(&mut c), Ok(blank(true)));
    assert_eq!(parse_ma_rp(&mut c), Ok(blank(false)));

    let mut c = Connection::new(b"VA 3\r\n10\r\n".to_vec());
    assert_eq!(
        parse_ma_rp(&mut c),
        Err(Error::Protocol(b"10\r\n".to_vec()))
    );
    let mut c = Connection::new(b"VA 2\r\nxy\r\n".to_vec());
    assert_eq!(
        parse_ma_rp(&mut c),
        Err(Error::Protocol(b"xy\r\n".to_vec()))
    );
    let mut c = Connection::new(b"VA 2\r\n".to_vec());
    assert_eq!(parse_ma_rp(&mut c), Err(Error::Protocol(Vec::new())));
    assert!(c.is_starved());
}

#[test]
fn a_watched_stream_hands_out_its_lines() {
    let mut w = WatchStream(Connection::new(
        b"ts=1 gid=1 type=item_get key=key\r\n\r\nlast".to_vec(),
    ));
    assert_eq!(
        w.message(),
        Ok(Some("ts=1 gid=1 type=item_get key=key".to_string()))
    );
    assert_eq!(w.message(), Ok(Some(String::new())));
    assert_eq!(w.message(), Err(Error::Protocol(b"last".to_vec())));
    assert_eq!(w.message(), Ok(None));

    let mut c = Connection::new(b"a\r\n".to_vec());
    assert_eq!(parse_message_rp(&mut c), Ok(Some("a".to_string())));
    assert_eq!(parse_message_rp(&mut c), Ok(None));
}
