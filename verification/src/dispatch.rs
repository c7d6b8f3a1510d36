//! That a command, once rendered, calls for the reply of its own kind: what
//! the dispatcher reads off the bytes of a command is what the command was
//! rendered from.

use crate::encode::auth_request;
use crate::encode::cache_memlimit_request;
use crate::encode::delete_request;
use crate::encode::flush_all_request;
use crate::encode::incr_decr_request;
use crate::encode::lru_crawler_crawl_request;
use crate::encode::lru_crawler_metadump_request;
use crate::encode::lru_crawler_mgdump_request;
use crate::encode::lru_crawler_request;
use crate::encode::lru_crawler_sleep_request;
use crate::encode::lru_crawler_tocrawl_request;
use crate::encode::lru_request;
use crate::encode::mc_request;
use crate::encode::me_request;
use crate::encode::mn_request;
use crate::encode::noreply_text;
use crate::encode::quit_request;
use crate::encode::retrieval_request;
use crate::encode::shutdown_request;
use crate::encode::slabs_automove_request;
use crate::encode::slabs_reassign_request;
use crate::encode::stats_request;
use crate::encode::storage_request;
use crate::encode::touch_request;
use crate::encode::version_request;
use crate::pipeline::count;
use crate::pipeline::first_line;
use crate::pipeline::is_single_key;
use crate::pipeline::shape_of;
use crate::pipeline::Shape;
use crate::text::all_digits;
use crate::text::b;
use crate::text::dec;
use crate::text::dec_int;
use crate::text::dec_list;
use crate::text::join_sp;
use crate::text::lemma_first_sep_is;
use crate::text::CR;
use crate::text::SP;
use crate::types::LruArg;
use crate::types::LruCrawlerArg;
use crate::types::LruCrawlerCrawlArg;
use crate::types::LruCrawlerMetadumpArg;
use crate::types::LruCrawlerMgdumpArg;
use crate::types::LruMode;
use crate::types::SlabsAutomoveArg;
use crate::types::StatsArg;
use vstd::prelude::*;
use vstd::string::is_ascii;
use vstd::string::is_ascii_spec_bytes;
use vstd::utf8::encode_utf8;

verus! {

/// Whether a byte string holds neither a space nor a control byte, as a key
/// must.
pub open spec fn plain(s: Seq<u8>) -> bool {
    forall|i: int| 0 <= i < s.len() ==> #[trigger] s[i] > 32
}

/// Whether a byte string ends in a decimal digit.
pub open spec fn ends_in_digit(s: Seq<u8>) -> bool {
    s.len() > 0 && 48 <= s.last() <= 57
}

proof fn lemma_differ_at(p: Seq<u8>, cmd: Seq<u8>, i: int)
    requires
        0 <= i < p.len(),
        i < cmd.len() ==> p[i] != cmd[i],
    ensures
        !p.is_prefix_of(cmd),
        p != cmd,
{
    if p.is_prefix_of(cmd) {
        assert(cmd.subrange(0, p.len() as int)[i] == cmd[i]);
    }
}

proof fn lemma_head(cmd: Seq<u8>, head: Seq<u8>, rest: Seq<u8>)
    requires
        cmd =~= head + rest,
    ensures
        head.is_prefix_of(cmd),
        cmd.len() == head.len() + rest.len(),
        forall|i: int| 0 <= i < head.len() ==> cmd[i] == head[i],
        forall|i: int| 0 <= i < rest.len() ==> cmd[head.len() + i] == rest[i],
{
    assert(cmd.subrange(0, head.len() as int) =~= head);
}

/// Whether a byte does not occur in a byte string.
pub open spec fn lacks(s: Seq<u8>, x: u8) -> bool {
    forall|i: int| 0 <= i < s.len() ==> #[trigger] s[i] != x
}

proof fn lemma_lacks_concat(a: Seq<u8>, c: Seq<u8>, x: u8)
    requires
        lacks(a, x),
        lacks(c, x),
    ensures
        lacks(a + c, x),
{
}

proof fn lemma_plain_lacks(s: Seq<u8>)
    requires
        plain(s),
    ensures
        lacks(s, SP),
        lacks(s, CR),
{
}

proof fn lemma_tail(cmd: Seq<u8>, front: Seq<u8>, tail: Seq<u8>)
    requires
        cmd =~= front + tail,
    ensures
        tail.is_suffix_of(cmd),
{
    assert(cmd.subrange(cmd.len() - tail.len(), cmd.len() as int) =~= tail);
}

proof fn lemma_dec_plain(n: nat)
    ensures
        plain(dec(n)),
        ends_in_digit(dec(n)),
        all_digits(dec(n)),
    decreases n,
{
    if n >= 10 {
        lemma_dec_plain(n / 10);
    }
}

proof fn lemma_dec_int_plain(x: int)
    ensures
        plain(dec_int(x)),
        ends_in_digit(dec_int(x)),
{
    if x < 0 {
        lemma_dec_plain((-x) as nat);
    } else {
        lemma_dec_plain(x as nat);
    }
}

proof fn lemma_count_concat(a: Seq<u8>, c: Seq<u8>, x: u8)
    ensures
        count(a + c, x) == count(a, x) + count(c, x),
    decreases c.len(),
{
    if c.len() == 0 {
        assert(a + c =~= a);
    } else {
        lemma_count_concat(a, c.drop_last(), x);
        assert((a + c).drop_last() =~= a + c.drop_last());
    }
}

proof fn lemma_count_none(s: Seq<u8>, x: u8)
    requires
        lacks(s, x),
    ensures
        count(s, x) == 0,
    decreases s.len(),
{
    if s.len() > 0 {
        lemma_count_none(s.drop_last(), x);
    }
}

proof fn lemma_count_one(s: Seq<u8>, x: u8)
    requires
        s.len() == 1,
        s[0] == x,
    ensures
        count(s, x) == 1,
{
    assert(count(s.drop_last(), x) == 0);
}

proof fn lemma_count_join(keys: Seq<Seq<u8>>)
    requires
        forall|k: int| 0 <= k < keys.len() ==> plain(#[trigger] keys[k]),
    ensures
        count(join_sp(keys), SP) == if keys.len() == 0 {
            0
        } else {
            keys.len() - 1
        },
    decreases keys.len(),
{
    if keys.len() == 0 {
    } else if keys.len() == 1 {
        lemma_plain_lacks(keys[0]);
        lemma_count_none(keys[0], SP);
    } else {
        lemma_count_join(keys.drop_last());
        lemma_count_concat(join_sp(keys.drop_last()), seq![SP], SP);
        lemma_count_one(seq![SP], SP);
        lemma_count_concat(join_sp(keys.drop_last()) + seq![SP], keys.last(), SP);
        lemma_plain_lacks(keys.last());
        lemma_count_none(keys.last(), SP);
    }
}

proof fn lemma_silent(cmd: Seq<u8>, front: Seq<u8>)
    requires
        cmd =~= front + b(" noreply") + b("\r\n"),
    ensures
        b("noreply\r\n").is_suffix_of(cmd),
{
    lemma_noreply_bytes();
    lemma_tail(cmd, front + seq![32u8], b("noreply\r\n"));
}

proof fn lemma_not_silent(cmd: Seq<u8>, front: Seq<u8>)
    requires
        cmd =~= front + b("\r\n"),
        front.len() > 0,
        front.last() != 121,
    ensures
        !b("noreply\r\n").is_suffix_of(cmd),
{
    lemma_noreply_bytes();
    if b("noreply\r\n").is_suffix_of(cmd) {
        let t = cmd.subrange(cmd.len() - 9, cmd.len() as int);
        assert(t[6] == cmd[cmd.len() - 3]);
        assert(cmd[cmd.len() - 3] == front[front.len() - 1]);
    }
}

proof fn lemma_first_line(cmd: Seq<u8>, line: Seq<u8>, rest: Seq<u8>)
    requires
        cmd =~= line + b("\r\n") + rest,
        lacks(line, CR),
    ensures
        first_line(cmd) == line,
{
    lemma_noreply_bytes();
    lemma_first_sep_is(cmd, CR, line.len() as int);
    assert(cmd.take(line.len() as int) =~= line);
}

proof fn lemma_line_not_silent(line: Seq<u8>)
    requires
        line.len() > 0,
        line.last() != 121,
    ensures
        !b("noreply").is_suffix_of(line),
{
    lemma_noreply_bytes();
    if b("noreply").is_suffix_of(line) {
        let t = line.subrange(line.len() - 7, line.len() as int);
        assert(t[6] == line[line.len() - 1]);
    }
}

proof fn lemma_noreply_bytes()
    ensures
        b(" noreply").len() == 8,
        b(" noreply")[0] == 32,
        b(" noreply")[1] == 110,
        b(" noreply")[2] == 111,
        b(" noreply")[3] == 114,
        b(" noreply")[4] == 101,
        b(" noreply")[5] == 112,
        b(" noreply")[6] == 108,
        b(" noreply")[7] == 121,
        b("noreply\r\n").len() == 9,
        b("noreply\r\n")[0] == 110,
        b("noreply\r\n")[1] == 111,
        b("noreply\r\n")[2] == 114,
        b("noreply\r\n")[3] == 101,
        b("noreply\r\n")[4] == 112,
        b("noreply\r\n")[5] == 108,
        b("noreply\r\n")[6] == 121,
        b("noreply\r\n")[7] == 13,
        b("noreply\r\n")[8] == 10,
        b("noreply").len() == 7,
        b("noreply")[0] == 110,
        b("noreply")[1] == 111,
        b("noreply")[2] == 114,
        b("noreply")[3] == 101,
        b("noreply")[4] == 112,
        b("noreply")[5] == 108,
        b("noreply")[6] == 121,
        b("\r\n").len() == 2,
        b("\r\n")[0] == 13,
        b("\r\n")[1] == 10,
        b(" ").len() == 1,
        b(" ")[0] == 32,
{
    lemma_bytes_sp_noreply();
    lemma_bytes_noreply_end();
    lemma_bytes_noreply();
    lemma_bytes_end();
    lemma_bytes_sp();
}

proof fn lemma_first_byte(cmd: Seq<u8>)
    ensures
        cmd.len() == 0 || cmd[0] != 103 ==> !b("gets ").is_prefix_of(cmd) && cmd != b("gets "),
        cmd.len() == 0 || cmd[0] != 103 ==> !b("get ").is_prefix_of(cmd) && cmd != b("get "),
        cmd.len() == 0 || cmd[0] != 103 ==> !b("gats ").is_prefix_of(cmd) && cmd != b("gats "),
        cmd.len() == 0 || cmd[0] != 103 ==> !b("gat ").is_prefix_of(cmd) && cmd != b("gat "),
        cmd.len() == 0 || cmd[0] != 115 ==> !b(
            "set _ _ _ ",
        ).is_prefix_of(cmd) && cmd != b("set _ _ _ "),
        cmd.len() == 0 || cmd[0] != 115 ==> !b("set ").is_prefix_of(cmd) && cmd != b("set "),
        cmd.len() == 0 || cmd[0] != 97 ==> !b("add ").is_prefix_of(cmd) && cmd != b("add "),
        cmd.len() == 0 || cmd[0] != 114 ==> !b(
            "replace ",
        ).is_prefix_of(cmd) && cmd != b("replace "),
        cmd.len() == 0 || cmd[0] != 97 ==> !b("append ").is_prefix_of(cmd) && cmd != b("append "),
        cmd.len() == 0 || cmd[0] != 112 ==> !b(
            "prepend ",
        ).is_prefix_of(cmd) && cmd != b("prepend "),
        cmd.len() == 0 || cmd[0] != 99 ==> !b("cas ").is_prefix_of(cmd) && cmd != b("cas "),
        cmd.len() == 0 || cmd[0] != 118 ==> !b(
            "version\r\n",
        ).is_prefix_of(cmd) && cmd != b("version\r\n"),
        cmd.len() == 0 || cmd[0] != 100 ==> !b("delete ").is_prefix_of(cmd) && cmd != b("delete "),
        cmd.len() == 0 || cmd[0] != 105 ==> !b("incr ").is_prefix_of(cmd) && cmd != b("incr "),
        cmd.len() == 0 || cmd[0] != 100 ==> !b("decr ").is_prefix_of(cmd) && cmd != b("decr "),
        cmd.len() == 0 || cmd[0] != 116 ==> !b("touch ").is_prefix_of(cmd) && cmd != b("touch "),
        cmd.len() == 0 || cmd[0] != 113 ==> !b(
            "quit\r\n",
        ).is_prefix_of(cmd) && cmd != b("quit\r\n"),
        cmd.len() == 0 || cmd[0] != 115 ==> !b(
            "shutdown",
        ).is_prefix_of(cmd) && cmd != b("shutdown"),
        cmd.len() == 0 || cmd[0] != 102 ==> !b(
            "flush_all",
        ).is_prefix_of(cmd) && cmd != b("flush_all"),
        cmd.len() == 0 || cmd[0] != 99 ==> !b(
            "cache_memlimit ",
        ).is_prefix_of(cmd) && cmd != b("cache_memlimit "),
        cmd.len() == 0 || cmd[0] != 115 ==> !b(
            "slabs automove ",
        ).is_prefix_of(cmd) && cmd != b("slabs automove "),
        cmd.len() == 0 || cmd[0] != 115 ==> !b(
            "slabs reassign ",
        ).is_prefix_of(cmd) && cmd != b("slabs reassign "),
        cmd.len() == 0 || cmd[0] != 108 ==> !b(
            "lru_crawler sleep ",
        ).is_prefix_of(cmd) && cmd != b("lru_crawler sleep "),
        cmd.len() == 0 || cmd[0] != 108 ==> !b(
            "lru_crawler crawl ",
        ).is_prefix_of(cmd) && cmd != b("lru_crawler crawl "),
        cmd.len() == 0 || cmd[0] != 108 ==> !b(
            "lru_crawler tocrawl ",
        ).is_prefix_of(cmd) && cmd != b("lru_crawler tocrawl "),
        cmd.len() == 0 || cmd[0] != 108 ==> !b(
            "lru_crawler enable\r\n",
        ).is_prefix_of(cmd) && cmd != b("lru_crawler enable\r\n"),
        cmd.len() == 0 || cmd[0] != 108 ==> !b(
            "lru_crawler disable\r\n",
        ).is_prefix_of(cmd) && cmd != b("lru_crawler disable\r\n"),
        cmd.len() == 0 || cmd[0] != 109 ==> !b("mn\r\n").is_prefix_of(cmd) && cmd != b("mn\r\n"),
        cmd.len() == 0 || cmd[0] != 115 ==> !b("stats").is_prefix_of(cmd) && cmd != b("stats"),
        cmd.len() == 0 || cmd[0] != 108 ==> !b(
            "lru_crawler metadump ",
        ).is_prefix_of(cmd) && cmd != b("lru_crawler metadump "),
        cmd.len() == 0 || cmd[0] != 108 ==> !b(
            "lru_crawler mgdump ",
        ).is_prefix_of(cmd) && cmd != b("lru_crawler mgdump "),
        cmd.len() == 0 || cmd[0] != 109 ==> !b("mg ").is_prefix_of(cmd) && cmd != b("mg "),
        cmd.len() == 0 || cmd[0] != 109 ==> !b("ms ").is_prefix_of(cmd) && cmd != b("ms "),
        cmd.len() == 0 || cmd[0] != 109 ==> !b("md ").is_prefix_of(cmd) && cmd != b("md "),
        cmd.len() == 0 || cmd[0] != 109 ==> !b("ma ").is_prefix_of(cmd) && cmd != b("ma "),
        cmd.len() == 0 || cmd[0] != 108 ==> !b("lru ").is_prefix_of(cmd) && cmd != b("lru "),
        cmd.len() == 0 || cmd[0] != 109 ==> !b("me ").is_prefix_of(cmd) && cmd != b("me "),
{
    lemma_bytes_gets_sp();
    if cmd.len() == 0 || cmd[0] != 103 {
        lemma_differ_at(b("gets "), cmd, 0);
    }
    lemma_bytes_get_sp();
    if cmd.len() == 0 || cmd[0] != 103 {
        lemma_differ_at(b("get "), cmd, 0);
    }
    lemma_bytes_gats_sp();
    if cmd.len() == 0 || cmd[0] != 103 {
        lemma_differ_at(b("gats "), cmd, 0);
    }
    lemma_bytes_gat_sp();
    if cmd.len() == 0 || cmd[0] != 103 {
        lemma_differ_at(b("gat "), cmd, 0);
    }
    lemma_bytes_set_sp_sp_sp_sp();
    if cmd.len() == 0 || cmd[0] != 115 {
        lemma_differ_at(b("set _ _ _ "), cmd, 0);
    }
    lemma_bytes_set_sp();
    if cmd.len() == 0 || cmd[0] != 115 {
        lemma_differ_at(b("set "), cmd, 0);
    }
    lemma_bytes_add_sp();
    if cmd.len() == 0 || cmd[0] != 97 {
        lemma_differ_at(b("add "), cmd, 0);
    }
    lemma_bytes_replace_sp();
    if cmd.len() == 0 || cmd[0] != 114 {
        lemma_differ_at(b("replace "), cmd, 0);
    }
    lemma_bytes_append_sp();
    if cmd.len() == 0 || cmd[0] != 97 {
        lemma_differ_at(b("append "), cmd, 0);
    }
    lemma_bytes_prepend_sp();
    if cmd.len() == 0 || cmd[0] != 112 {
        lemma_differ_at(b("prepend "), cmd, 0);
    }
    lemma_bytes_cas_sp();
    if cmd.len() == 0 || cmd[0] != 99 {
        lemma_differ_at(b("cas "), cmd, 0);
    }
    lemma_bytes_version_end();
    if cmd.len() == 0 || cmd[0] != 118 {
        lemma_differ_at(b("version\r\n"), cmd, 0);
    }
    lemma_bytes_delete_sp();
    if cmd.len() == 0 || cmd[0] != 100 {
        lemma_differ_at(b("delete "), cmd, 0);
    }
    lemma_bytes_incr_sp();
    if cmd.len() == 0 || cmd[0] != 105 {
        lemma_differ_at(b("incr "), cmd, 0);
    }
    lemma_bytes_decr_sp();
    if cmd.len() == 0 || cmd[0] != 100 {
        lemma_differ_at(b("decr "), cmd, 0);
    }
    lemma_bytes_touch_sp();
    if cmd.len() == 0 || cmd[0] != 116 {
        lemma_differ_at(b("touch "), cmd, 0);
    }
    lemma_bytes_quit_end();
    if cmd.len() == 0 || cmd[0] != 113 {
        lemma_differ_at(b("quit\r\n"), cmd, 0);
    }
    lemma_bytes_shutdown();
    if cmd.len() == 0 || cmd[0] != 115 {
        lemma_differ_at(b("shutdown"), cmd, 0);
    }
    lemma_bytes_flush_all();
    if cmd.len() == 0 || cmd[0] != 102 {
        lemma_differ_at(b("flush_all"), cmd, 0);
    }
    lemma_bytes_cache_memlimit_sp();
    if cmd.len() == 0 || cmd[0] != 99 {
        lemma_differ_at(b("cache_memlimit "), cmd, 0);
    }
    lemma_bytes_slabs_sp_automove_sp();
    if cmd.len() == 0 || cmd[0] != 115 {
        lemma_differ_at(b("slabs automove "), cmd, 0);
    }
    lemma_bytes_slabs_sp_reassign_sp();
    if cmd.len() == 0 || cmd[0] != 115 {
        lemma_differ_at(b("slabs reassign "), cmd, 0);
    }
    lemma_bytes_lru_crawler_sp_sleep_sp();
    if cmd.len() == 0 || cmd[0] != 108 {
        lemma_differ_at(b("lru_crawler sleep "), cmd, 0);
    }
    lemma_bytes_lru_crawler_sp_crawl_sp();
    if cmd.len() == 0 || cmd[0] != 108 {
        lemma_differ_at(b("lru_crawler crawl "), cmd, 0);
    }
    lemma_bytes_lru_crawler_sp_tocrawl_sp();
    if cmd.len() == 0 || cmd[0] != 108 {
        lemma_differ_at(b("lru_crawler tocrawl "), cmd, 0);
    }
    lemma_bytes_lru_crawler_sp_enable_end();
    if cmd.len() == 0 || cmd[0] != 108 {
        lemma_differ_at(b("lru_crawler enable\r\n"), cmd, 0);
    }
    lemma_bytes_lru_crawler_sp_disable_end();
    if cmd.len() == 0 || cmd[0] != 108 {
        lemma_differ_at(b("lru_crawler disable\r\n"), cmd, 0);
    }
    lemma_bytes_mn_end();
    if cmd.len() == 0 || cmd[0] != 109 {
        lemma_differ_at(b("mn\r\n"), cmd, 0);
    }
    lemma_bytes_stats();
    if cmd.len() == 0 || cmd[0] != 115 {
        lemma_differ_at(b("stats"), cmd, 0);
    }
    lemma_bytes_lru_crawler_sp_metadump_sp();
    if cmd.len() == 0 || cmd[0] != 108 {
        lemma_differ_at(b("lru_crawler metadump "), cmd, 0);
    }
    lemma_bytes_lru_crawler_sp_mgdump_sp();
    if cmd.len() == 0 || cmd[0] != 108 {
        lemma_differ_at(b("lru_crawler mgdump "), cmd, 0);
    }
    lemma_bytes_mg_sp();
    if cmd.len() == 0 || cmd[0] != 109 {
        lemma_differ_at(b("mg "), cmd, 0);
    }
    lemma_bytes_ms_sp();
    if cmd.len() == 0 || cmd[0] != 109 {
        lemma_differ_at(b("ms "), cmd, 0);
    }
    lemma_bytes_md_sp();
    if cmd.len() == 0 || cmd[0] != 109 {
        lemma_differ_at(b("md "), cmd, 0);
    }
    lemma_bytes_ma_sp();
    if cmd.len() == 0 || cmd[0] != 109 {
        lemma_differ_at(b("ma "), cmd, 0);
    }
    lemma_bytes_lru_sp();
    if cmd.len() == 0 || cmd[0] != 108 {
        lemma_differ_at(b("lru "), cmd, 0);
    }
    lemma_bytes_me_sp();
    if cmd.len() == 0 || cmd[0] != 109 {
        lemma_differ_at(b("me "), cmd, 0);
    }
}

proof fn lemma_begins_gets_sp(cmd: Seq<u8>)
    requires
        b("gets ").is_prefix_of(cmd),
    ensures
        shape_of(cmd) == (if is_single_key(cmd) {
            Shape::OptionItem
        } else {
            Shape::VecItem
        }),
{
    lemma_bytes_gets_sp();
    lemma_prefixed(cmd, b("gets "));
    lemma_first_byte(cmd);
}

proof fn lemma_begins_get_sp(cmd: Seq<u8>)
    requires
        b("get ").is_prefix_of(cmd),
    ensures
        shape_of(cmd) == (if is_single_key(cmd) {
            Shape::OptionItem
        } else {
            Shape::VecItem
        }),
{
    lemma_bytes_get_sp();
    lemma_prefixed(cmd, b("get "));
    lemma_first_byte(cmd);
    lemma_bytes_gets_sp();
    lemma_differ_at(b("gets "), cmd, 3);
}

proof fn lemma_begins_gats_sp(cmd: Seq<u8>)
    requires
        b("gats ").is_prefix_of(cmd),
    ensures
        shape_of(cmd) == (if is_single_key(cmd) {
            Shape::OptionItem
        } else {
            Shape::VecItem
        }),
{
    lemma_bytes_gats_sp();
    lemma_prefixed(cmd, b("gats "));
    lemma_first_byte(cmd);
    lemma_bytes_gets_sp();
    lemma_differ_at(b("gets "), cmd, 1);
    lemma_bytes_get_sp();
    lemma_differ_at(b("get "), cmd, 1);
}

proof fn lemma_begins_gat_sp(cmd: Seq<u8>)
    requires
        b("gat ").is_prefix_of(cmd),
    ensures
        shape_of(cmd) == (if is_single_key(cmd) {
            Shape::OptionItem
        } else {
            Shape::VecItem
        }),
{
    lemma_bytes_gat_sp();
    lemma_prefixed(cmd, b("gat "));
    lemma_first_byte(cmd);
    lemma_bytes_gets_sp();
    lemma_differ_at(b("gets "), cmd, 1);
    lemma_bytes_get_sp();
    lemma_differ_at(b("get "), cmd, 1);
    lemma_bytes_gats_sp();
    lemma_differ_at(b("gats "), cmd, 3);
}

proof fn lemma_begins_set_sp_sp_sp_sp(cmd: Seq<u8>)
    requires
        b("set _ _ _ ").is_prefix_of(cmd),
    ensures
        shape_of(cmd) == (Shape::Auth),
{
    lemma_bytes_set_sp_sp_sp_sp();
    lemma_prefixed(cmd, b("set _ _ _ "));
    lemma_first_byte(cmd);
}

proof fn lemma_begins_set_sp(cmd: Seq<u8>)
    requires
        b("set ").is_prefix_of(cmd),
        !b("set _ _ _ ").is_prefix_of(cmd),
    ensures
        shape_of(cmd) == (Shape::Storage { noreply: b("noreply").is_suffix_of(first_line(cmd)) }),
{
    lemma_bytes_set_sp();
    lemma_prefixed(cmd, b("set "));
    lemma_first_byte(cmd);
}

proof fn lemma_begins_add_sp(cmd: Seq<u8>)
    requires
        b("add ").is_prefix_of(cmd),
    ensures
        shape_of(cmd) == (Shape::Storage { noreply: b("noreply").is_suffix_of(first_line(cmd)) }),
{
    lemma_bytes_add_sp();
    lemma_prefixed(cmd, b("add "));
    lemma_first_byte(cmd);
}

proof fn lemma_begins_replace_sp(cmd: Seq<u8>)
    requires
        b("replace ").is_prefix_of(cmd),
    ensures
        shape_of(cmd) == (Shape::Storage { noreply: b("noreply").is_suffix_of(first_line(cmd)) }),
{
    lemma_bytes_replace_sp();
    lemma_prefixed(cmd, b("replace "));
    lemma_first_byte(cmd);
}

proof fn lemma_begins_append_sp(cmd: Seq<u8>)
    requires
        b("append ").is_prefix_of(cmd),
    ensures
        shape_of(cmd) == (Shape::Storage { noreply: b("noreply").is_suffix_of(first_line(cmd)) }),
{
    lemma_bytes_append_sp();
    lemma_prefixed(cmd, b("append "));
    lemma_first_byte(cmd);
    lemma_bytes_add_sp();
    lemma_differ_at(b("add "), cmd, 1);
}

proof fn lemma_begins_prepend_sp(cmd: Seq<u8>)
    requires
        b("prepend ").is_prefix_of(cmd),
    ensures
        shape_of(cmd) == (Shape::Storage { noreply: b("noreply").is_suffix_of(first_line(cmd)) }),
{
    lemma_bytes_prepend_sp();
    lemma_prefixed(cmd, b("prepend "));
    lemma_first_byte(cmd);
}

proof fn lemma_begins_cas_sp(cmd: Seq<u8>)
    requires
        b("cas ").is_prefix_of(cmd),
    ensures
        shape_of(cmd) == (Shape::Storage { noreply: b("noreply").is_suffix_of(first_line(cmd)) }),
{
    lemma_bytes_cas_sp();
    lemma_prefixed(cmd, b("cas "));
    lemma_first_byte(cmd);
}

proof fn lemma_begins_version_end(cmd: Seq<u8>)
    requires
        cmd == b("version\r\n"),
    ensures
        shape_of(cmd) == (Shape::Version),
{
    lemma_bytes_version_end();
    lemma_first_byte(cmd);
}

proof fn lemma_begins_delete_sp(cmd: Seq<u8>)
    requires
        b("delete ").is_prefix_of(cmd),
    ensures
        shape_of(cmd) == (Shape::Delete { noreply: b("noreply\r\n").is_suffix_of(cmd) }),
{
    lemma_bytes_delete_sp();
    lemma_prefixed(cmd, b("delete "));
    lemma_first_byte(cmd);
}

proof fn lemma_begins_incr_sp(cmd: Seq<u8>)
    requires
        b("incr ").is_prefix_of(cmd),
    ensures
        shape_of(cmd) == (Shape::Value { noreply: b("noreply\r\n").is_suffix_of(cmd) }),
{
    lemma_bytes_incr_sp();
    lemma_prefixed(cmd, b("incr "));
    lemma_first_byte(cmd);
}

proof fn lemma_begins_decr_sp(cmd: Seq<u8>)
    requires
        b("decr ").is_prefix_of(cmd),
    ensures
        shape_of(cmd) == (Shape::Value { noreply: b("noreply\r\n").is_suffix_of(cmd) }),
{
    lemma_bytes_decr_sp();
    lemma_prefixed(cmd, b("decr "));
    lemma_first_byte(cmd);
    lemma_bytes_delete_sp();
    lemma_differ_at(b("delete "), cmd, 2);
}

proof fn lemma_begins_touch_sp(cmd: Seq<u8>)
    requires
        b("touch ").is_prefix_of(cmd),
    ensures
        shape_of(cmd) == (Shape::Touch { noreply: b("noreply\r\n").is_suffix_of(cmd) }),
{
    lemma_bytes_touch_sp();
    lemma_prefixed(cmd, b("touch "));
    lemma_first_byte(cmd);
}

proof fn lemma_begins_quit_end(cmd: Seq<u8>)
    requires
        cmd == b("quit\r\n"),
    ensures
        shape_of(cmd) == (Shape::Nothing),
{
    lemma_bytes_quit_end();
    lemma_first_byte(cmd);
}

proof fn lemma_begins_shutdown(cmd: Seq<u8>)
    requires
        b("shutdown").is_prefix_of(cmd),
    ensures
        shape_of(cmd) == (Shape::Nothing),
{
    lemma_bytes_shutdown();
    lemma_prefixed(cmd, b("shutdown"));
    lemma_first_byte(cmd);
    lemma_bytes_set_sp_sp_sp_sp();
    lemma_differ_at(b("set _ _ _ "), cmd, 1);
    lemma_bytes_set_sp();
    lemma_differ_at(b("set "), cmd, 1);
}

proof fn lemma_begins_flush_all(cmd: Seq<u8>)
    requires
        b("flush_all").is_prefix_of(cmd),
    ensures
        shape_of(cmd) == (Shape::Done { noreply: b("noreply\r\n").is_suffix_of(cmd) }),
{
    lemma_bytes_flush_all();
    lemma_prefixed(cmd, b("flush_all"));
    lemma_first_byte(cmd);
}

proof fn lemma_begins_cache_memlimit_sp(cmd: Seq<u8>)
    requires
        b("cache_memlimit ").is_prefix_of(cmd),
    ensures
        shape_of(cmd) == (Shape::Done { noreply: b("noreply\r\n").is_suffix_of(cmd) }),
{
    lemma_bytes_cache_memlimit_sp();
    lemma_prefixed(cmd, b("cache_memlimit "));
    lemma_first_byte(cmd);
    lemma_bytes_cas_sp();
    lemma_differ_at(b("cas "), cmd, 2);
}

proof fn lemma_begins_slabs_sp_automove_sp(cmd: Seq<u8>)
    requires
        b("slabs automove ").is_prefix_of(cmd),
    ensures
        shape_of(cmd) == (Shape::Done { noreply: false }),
{
    lemma_bytes_slabs_sp_automove_sp();
    lemma_prefixed(cmd, b("slabs automove "));
    lemma_first_byte(cmd);
    lemma_bytes_set_sp_sp_sp_sp();
    lemma_differ_at(b("set _ _ _ "), cmd, 1);
    lemma_bytes_set_sp();
    lemma_differ_at(b("set "), cmd, 1);
    lemma_bytes_shutdown();
    lemma_differ_at(b("shutdown"), cmd, 1);
}

proof fn lemma_begins_slabs_sp_reassign_sp(cmd: Seq<u8>)
    requires
        b("slabs reassign ").is_prefix_of(cmd),
    ensures
        shape_of(cmd) == (Shape::Done { noreply: false }),
{
    lemma_bytes_slabs_sp_reassign_sp();
    lemma_prefixed(cmd, b("slabs reassign "));
    lemma_first_byte(cmd);
    lemma_bytes_set_sp_sp_sp_sp();
    lemma_differ_at(b("set _ _ _ "), cmd, 1);
    lemma_bytes_set_sp();
    lemma_differ_at(b("set "), cmd, 1);
    lemma_bytes_shutdown();
    lemma_differ_at(b("shutdown"), cmd, 1);
    lemma_bytes_slabs_sp_automove_sp();
    lemma_differ_at(b("slabs automove "), cmd, 6);
}

proof fn lemma_begins_lru_crawler_sp_sleep_sp(cmd: Seq<u8>)
    requires
        b("lru_crawler sleep ").is_prefix_of(cmd),
    ensures
        shape_of(cmd) == (Shape::Done { noreply: false }),
{
    lemma_bytes_lru_crawler_sp_sleep_sp();
    lemma_prefixed(cmd, b("lru_crawler sleep "));
    lemma_first_byte(cmd);
}

proof fn lemma_begins_lru_crawler_sp_crawl_sp(cmd: Seq<u8>)
    requires
        b("lru_crawler crawl ").is_prefix_of(cmd),
    ensures
        shape_of(cmd) == (Shape::Done { noreply: false }),
{
    lemma_bytes_lru_crawler_sp_crawl_sp();
    lemma_prefixed(cmd, b("lru_crawler crawl "));
    lemma_first_byte(cmd);
    lemma_bytes_lru_crawler_sp_sleep_sp();
    lemma_differ_at(b("lru_crawler sleep "), cmd, 12);
}

proof fn lemma_begins_lru_crawler_sp_tocrawl_sp(cmd: Seq<u8>)
    requires
        b("lru_crawler tocrawl ").is_prefix_of(cmd),
    ensures
        shape_of(cmd) == (Shape::Done { noreply: false }),
{
    lemma_bytes_lru_crawler_sp_tocrawl_sp();
    lemma_prefixed(cmd, b("lru_crawler tocrawl "));
    lemma_first_byte(cmd);
    lemma_bytes_lru_crawler_sp_sleep_sp();
    lemma_differ_at(b("lru_crawler sleep "), cmd, 12);
    lemma_bytes_lru_crawler_sp_crawl_sp();
    lemma_differ_at(b("lru_crawler crawl "), cmd, 12);
}

proof fn lemma_begins_lru_crawler_sp_enable_end(cmd: Seq<u8>)
    requires
        cmd == b("lru_crawler enable\r\n"),
    ensures
        shape_of(cmd) == (Shape::Done { noreply: false }),
{
    lemma_bytes_lru_crawler_sp_enable_end();
    lemma_first_byte(cmd);
    lemma_bytes_lru_crawler_sp_sleep_sp();
    lemma_differ_at(b("lru_crawler sleep "), cmd, 12);
    lemma_bytes_lru_crawler_sp_crawl_sp();
    lemma_differ_at(b("lru_crawler crawl "), cmd, 12);
    lemma_bytes_lru_crawler_sp_tocrawl_sp();
    lemma_differ_at(b("lru_crawler tocrawl "), cmd, 12);
}

proof fn lemma_begins_lru_crawler_sp_disable_end(cmd: Seq<u8>)
    requires
        cmd == b("lru_crawler disable\r\n"),
    ensures
        shape_of(cmd) == (Shape::Done { noreply: false }),
{
    lemma_bytes_lru_crawler_sp_disable_end();
    lemma_first_byte(cmd);
    lemma_bytes_lru_crawler_sp_sleep_sp();
    lemma_differ_at(b("lru_crawler sleep "), cmd, 12);
    lemma_bytes_lru_crawler_sp_crawl_sp();
    lemma_differ_at(b("lru_crawler crawl "), cmd, 12);
    lemma_bytes_lru_crawler_sp_tocrawl_sp();
    lemma_differ_at(b("lru_crawler tocrawl "), cmd, 12);
    lemma_bytes_lru_crawler_sp_enable_end();
    lemma_differ_at(b("lru_crawler enable\r\n"), cmd, 12);
}

proof fn lemma_begins_mn_end(cmd: Seq<u8>)
    requires
        cmd == b("mn\r\n"),
    ensures
        shape_of(cmd) == (Shape::Mn),
{
    lemma_bytes_mn_end();
    lemma_first_byte(cmd);
}

proof fn lemma_begins_stats(cmd: Seq<u8>)
    requires
        b("stats").is_prefix_of(cmd),
    ensures
        shape_of(cmd) == (Shape::Stats),
{
    lemma_bytes_stats();
    lemma_prefixed(cmd, b("stats"));
    lemma_first_byte(cmd);
    lemma_bytes_set_sp_sp_sp_sp();
    lemma_differ_at(b("set _ _ _ "), cmd, 1);
    lemma_bytes_set_sp();
    lemma_differ_at(b("set "), cmd, 1);
    lemma_bytes_shutdown();
    lemma_differ_at(b("shutdown"), cmd, 1);
    lemma_bytes_slabs_sp_automove_sp();
    lemma_differ_at(b("slabs automove "), cmd, 1);
    lemma_bytes_slabs_sp_reassign_sp();
    lemma_differ_at(b("slabs reassign "), cmd, 1);
}

proof fn lemma_begins_lru_crawler_sp_metadump_sp(cmd: Seq<u8>)
    requires
        b("lru_crawler metadump ").is_prefix_of(cmd),
    ensures
        shape_of(cmd) == (Shape::Metadump),
{
    lemma_bytes_lru_crawler_sp_metadump_sp();
    lemma_prefixed(cmd, b("lru_crawler metadump "));
    lemma_first_byte(cmd);
    lemma_bytes_lru_crawler_sp_sleep_sp();
    lemma_differ_at(b("lru_crawler sleep "), cmd, 12);
    lemma_bytes_lru_crawler_sp_crawl_sp();
    lemma_differ_at(b("lru_crawler crawl "), cmd, 12);
    lemma_bytes_lru_crawler_sp_tocrawl_sp();
    lemma_differ_at(b("lru_crawler tocrawl "), cmd, 12);
    lemma_bytes_lru_crawler_sp_enable_end();
    lemma_differ_at(b("lru_crawler enable\r\n"), cmd, 12);
    lemma_bytes_lru_crawler_sp_disable_end();
    lemma_differ_at(b("lru_crawler disable\r\n"), cmd, 12);
}

proof fn lemma_begins_lru_crawler_sp_mgdump_sp(cmd: Seq<u8>)
    requires
        b("lru_crawler mgdump ").is_prefix_of(cmd),
    ensures
        shape_of(cmd) == (Shape::Mgdump),
{
    lemma_bytes_lru_crawler_sp_mgdump_sp();
    lemma_prefixed(cmd, b("lru_crawler mgdump "));
    lemma_first_byte(cmd);
    lemma_bytes_lru_crawler_sp_sleep_sp();
    lemma_differ_at(b("lru_crawler sleep "), cmd, 12);
    lemma_bytes_lru_crawler_sp_crawl_sp();
    lemma_differ_at(b("lru_crawler crawl "), cmd, 12);
    lemma_bytes_lru_crawler_sp_tocrawl_sp();
    lemma_differ_at(b("lru_crawler tocrawl "), cmd, 12);
    lemma_bytes_lru_crawler_sp_enable_end();
    lemma_differ_at(b("lru_crawler enable\r\n"), cmd, 12);
    lemma_bytes_lru_crawler_sp_disable_end();
    lemma_differ_at(b("lru_crawler disable\r\n"), cmd, 12);
    lemma_bytes_lru_crawler_sp_metadump_sp();
    lemma_differ_at(b("lru_crawler metadump "), cmd, 13);
}

proof fn lemma_begins_mg_sp(cmd: Seq<u8>)
    requires
        b("mg ").is_prefix_of(cmd),
    ensures
        shape_of(cmd) == (Shape::MetaGet),
{
    lemma_bytes_mg_sp();
    lemma_prefixed(cmd, b("mg "));
    lemma_first_byte(cmd);
    lemma_bytes_mn_end();
    lemma_differ_at(b("mn\r\n"), cmd, 1);
}

proof fn lemma_begins_ms_sp(cmd: Seq<u8>)
    requires
        b("ms ").is_prefix_of(cmd),
    ensures
        shape_of(cmd) == (Shape::MetaSet),
{
    lemma_bytes_ms_sp();
    lemma_prefixed(cmd, b("ms "));
    lemma_first_byte(cmd);
    lemma_bytes_mn_end();
    lemma_differ_at(b("mn\r\n"), cmd, 1);
    lemma_bytes_mg_sp();
    lemma_differ_at(b("mg "), cmd, 1);
}

proof fn lemma_begins_md_sp(cmd: Seq<u8>)
    requires
        b("md ").is_prefix_of(cmd),
    ensures
        shape_of(cmd) == (Shape::MetaDelete),
{
    lemma_bytes_md_sp();
    lemma_prefixed(cmd, b("md "));
    lemma_first_byte(cmd);
    lemma_bytes_mn_end();
    lemma_differ_at(b("mn\r\n"), cmd, 1);
    lemma_bytes_mg_sp();
    lemma_differ_at(b("mg "), cmd, 1);
    lemma_bytes_ms_sp();
    lemma_differ_at(b("ms "), cmd, 1);
}

proof fn lemma_begins_ma_sp(cmd: Seq<u8>)
    requires
        b("ma ").is_prefix_of(cmd),
    ensures
        shape_of(cmd) == (Shape::MetaArithmetic),
{
    lemma_bytes_ma_sp();
    lemma_prefixed(cmd, b("ma "));
    lemma_first_byte(cmd);
    lemma_bytes_mn_end();
    lemma_differ_at(b("mn\r\n"), cmd, 1);
    lemma_bytes_mg_sp();
    lemma_differ_at(b("mg "), cmd, 1);
    lemma_bytes_ms_sp();
    lemma_differ_at(b("ms "), cmd, 1);
    lemma_bytes_md_sp();
    lemma_differ_at(b("md "), cmd, 1);
}

proof fn lemma_begins_lru_sp(cmd: Seq<u8>)
    requires
        b("lru ").is_prefix_of(cmd),
    ensures
        shape_of(cmd) == (Shape::Done { noreply: false }),
{
    lemma_bytes_lru_sp();
    lemma_prefixed(cmd, b("lru "));
    lemma_first_byte(cmd);
    lemma_bytes_lru_crawler_sp_sleep_sp();
    lemma_differ_at(b("lru_crawler sleep "), cmd, 3);
    lemma_bytes_lru_crawler_sp_crawl_sp();
    lemma_differ_at(b("lru_crawler crawl "), cmd, 3);
    lemma_bytes_lru_crawler_sp_tocrawl_sp();
    lemma_differ_at(b("lru_crawler tocrawl "), cmd, 3);
    lemma_bytes_lru_crawler_sp_enable_end();
    lemma_differ_at(b("lru_crawler enable\r\n"), cmd, 3);
    lemma_bytes_lru_crawler_sp_disable_end();
    lemma_differ_at(b("lru_crawler disable\r\n"), cmd, 3);
    lemma_bytes_lru_crawler_sp_metadump_sp();
    lemma_differ_at(b("lru_crawler metadump "), cmd, 3);
    lemma_bytes_lru_crawler_sp_mgdump_sp();
    lemma_differ_at(b("lru_crawler mgdump "), cmd, 3);
}

proof fn lemma_begins_me_sp(cmd: Seq<u8>)
    requires
        b("me ").is_prefix_of(cmd),
    ensures
        shape_of(cmd) == (Shape::Me),
{
    lemma_bytes_me_sp();
    lemma_prefixed(cmd, b("me "));
    lemma_first_byte(cmd);
    lemma_bytes_mn_end();
    lemma_differ_at(b("mn\r\n"), cmd, 1);
    lemma_bytes_mg_sp();
    lemma_differ_at(b("mg "), cmd, 1);
    lemma_bytes_ms_sp();
    lemma_differ_at(b("ms "), cmd, 1);
    lemma_bytes_md_sp();
    lemma_differ_at(b("md "), cmd, 1);
    lemma_bytes_ma_sp();
    lemma_differ_at(b("ma "), cmd, 1);
}

/// A `version` calls for the version.
pub proof fn law_version_shape()
    ensures
        shape_of(version_request()) == (Shape::Version),
{
    let cmd = version_request();
    lemma_begins_version_end(cmd);
}

/// A `quit` calls for no reply.
pub proof fn law_quit_shape()
    ensures
        shape_of(quit_request()) == (Shape::Nothing),
{
    let cmd = quit_request();
    lemma_begins_quit_end(cmd);
}

/// A `shutdown` calls for no reply.
pub proof fn law_shutdown_shape(graceful: bool)
    ensures
        shape_of(shutdown_request(graceful)) == (Shape::Nothing),
{
    let cmd = shutdown_request(graceful);
    match graceful {
        true => {
            lemma_bytes_shutdown_sp_graceful_end();
            lemma_bytes_shutdown();
            assert(b("shutdown").is_prefix_of(cmd)) by {
                assert forall|i: int| 0 <= i < 8 implies b("shutdown")[i] == cmd[i] by {
                    if i == 0 {
                    } else if i == 1 {
                    } else if i == 2 {
                    } else if i == 3 {
                    } else if i == 4 {
                    } else if i == 5 {
                    } else if i == 6 {
                    } else {
                    }
                }
                assert(b("shutdown") =~= cmd.subrange(0, 8));
            }
            lemma_begins_shutdown(cmd);
        },
        false => {
            lemma_bytes_shutdown_end();
            lemma_bytes_shutdown();
            assert(b("shutdown").is_prefix_of(cmd)) by {
                assert forall|i: int| 0 <= i < 8 implies b("shutdown")[i] == cmd[i] by {
                    if i == 0 {
                    } else if i == 1 {
                    } else if i == 2 {
                    } else if i == 3 {
                    } else if i == 4 {
                    } else if i == 5 {
                    } else if i == 6 {
                    } else {
                    }
                }
                assert(b("shutdown") =~= cmd.subrange(0, 8));
            }
            lemma_begins_shutdown(cmd);
        },
    }
}

/// A meta no-op calls for the line `MN`.
pub proof fn law_mn_shape()
    ensures
        shape_of(mn_request()) == (Shape::Mn),
{
    let cmd = mn_request();
    lemma_begins_mn_end(cmd);
}

/// Switching the crawler calls for the line `OK`.
pub proof fn law_lru_crawler_shape(arg: LruCrawlerArg)
    ensures
        shape_of(lru_crawler_request(arg)) == (Shape::Done { noreply: false }),
{
    let cmd = lru_crawler_request(arg);
    match arg {
        LruCrawlerArg::Enable => {
            lemma_begins_lru_crawler_sp_enable_end(cmd);
        },
        LruCrawlerArg::Disable => {
            lemma_begins_lru_crawler_sp_disable_end(cmd);
        },
    }
}

/// A `stats` calls for lines of statistics.
pub proof fn law_stats_shape(arg: Option<StatsArg>)
    ensures
        shape_of(stats_request(arg)) == (Shape::Stats),
{
    let cmd = stats_request(arg);
    match arg {
        Some(StatsArg::Settings) => {
            lemma_bytes_stats_sp_settings_end();
            lemma_bytes_stats();
            assert(b("stats").is_prefix_of(cmd)) by {
                assert forall|i: int| 0 <= i < 5 implies b("stats")[i] == cmd[i] by {
                    if i == 0 {
                    } else if i == 1 {
                    } else if i == 2 {
                    } else if i == 3 {
                    } else {
                    }
                }
                assert(b("stats") =~= cmd.subrange(0, 5));
            }
            lemma_begins_stats(cmd);
        },
        Some(StatsArg::Items) => {
            lemma_bytes_stats_sp_items_end();
            lemma_bytes_stats();
            assert(b("stats").is_prefix_of(cmd)) by {
                assert forall|i: int| 0 <= i < 5 implies b("stats")[i] == cmd[i] by {
                    if i == 0 {
                    } else if i == 1 {
                    } else if i == 2 {
                    } else if i == 3 {
                    } else {
                    }
                }
                assert(b("stats") =~= cmd.subrange(0, 5));
            }
            lemma_begins_stats(cmd);
        },
        Some(StatsArg::Sizes) => {
            lemma_bytes_stats_sp_sizes_end();
            lemma_bytes_stats();
            assert(b("stats").is_prefix_of(cmd)) by {
                assert forall|i: int| 0 <= i < 5 implies b("stats")[i] == cmd[i] by {
                    if i == 0 {
                    } else if i == 1 {
                    } else if i == 2 {
                    } else if i == 3 {
                    } else {
                    }
                }
                assert(b("stats") =~= cmd.subrange(0, 5));
            }
            lemma_begins_stats(cmd);
        },
        Some(StatsArg::Slabs) => {
            lemma_bytes_stats_sp_slabs_end();
            lemma_bytes_stats();
            assert(b("stats").is_prefix_of(cmd)) by {
                assert forall|i: int| 0 <= i < 5 implies b("stats")[i] == cmd[i] by {
                    if i == 0 {
                    } else if i == 1 {
                    } else if i == 2 {
                    } else if i == 3 {
                    } else {
                    }
                }
                assert(b("stats") =~= cmd.subrange(0, 5));
            }
            lemma_begins_stats(cmd);
        },
        Some(StatsArg::Conns) => {
            lemma_bytes_stats_sp_conns_end();
            lemma_bytes_stats();
            assert(b("stats").is_prefix_of(cmd)) by {
                assert forall|i: int| 0 <= i < 5 implies b("stats")[i] == cmd[i] by {
                    if i == 0 {
                    } else if i == 1 {
                    } else if i == 2 {
                    } else if i == 3 {
                    } else {
                    }
                }
                assert(b("stats") =~= cmd.subrange(0, 5));
            }
            lemma_begins_stats(cmd);
        },
        None => {
            lemma_bytes_stats_end();
            lemma_bytes_stats();
            assert(b("stats").is_prefix_of(cmd)) by {
                assert forall|i: int| 0 <= i < 5 implies b("stats")[i] == cmd[i] by {
                    if i == 0 {
                    } else if i == 1 {
                    } else if i == 2 {
                    } else if i == 3 {
                    } else {
                    }
                }
                assert(b("stats") =~= cmd.subrange(0, 5));
            }
            lemma_begins_stats(cmd);
        },
    }
}

/// A `slabs automove` calls for the line `OK`.
pub proof fn law_slabs_automove_shape(arg: SlabsAutomoveArg)
    ensures
        shape_of(slabs_automove_request(arg)) == (Shape::Done { noreply: false }),
{
    let cmd = slabs_automove_request(arg);
    match arg {
        SlabsAutomoveArg::Zero => {
            lemma_bytes_slabs_sp_automove_sp_0_end();
            lemma_bytes_slabs_sp_automove_sp();
            assert(b("slabs automove ").is_prefix_of(cmd)) by {
                assert forall|i: int| 0 <= i < 15 implies b("slabs automove ")[i] == cmd[i] by {
                    if i == 0 {
                    } else if i == 1 {
                    } else if i == 2 {
                    } else if i == 3 {
                    } else if i == 4 {
                    } else if i == 5 {
                    } else if i == 6 {
                    } else if i == 7 {
                    } else if i == 8 {
                    } else if i == 9 {
                    } else if i == 10 {
                    } else if i == 11 {
                    } else if i == 12 {
                    } else if i == 13 {
                    } else {
                    }
                }
                assert(b("slabs automove ") =~= cmd.subrange(0, 15));
            }
            lemma_begins_slabs_sp_automove_sp(cmd);
        },
        SlabsAutomoveArg::One => {
            lemma_bytes_slabs_sp_automove_sp_1_end();
            lemma_bytes_slabs_sp_automove_sp();
            assert(b("slabs automove ").is_prefix_of(cmd)) by {
                assert forall|i: int| 0 <= i < 15 implies b("slabs automove ")[i] == cmd[i] by {
                    if i == 0 {
                    } else if i == 1 {
                    } else if i == 2 {
                    } else if i == 3 {
                    } else if i == 4 {
                    } else if i == 5 {
                    } else if i == 6 {
                    } else if i == 7 {
                    } else if i == 8 {
                    } else if i == 9 {
                    } else if i == 10 {
                    } else if i == 11 {
                    } else if i == 12 {
                    } else if i == 13 {
                    } else {
                    }
                }
                assert(b("slabs automove ") =~= cmd.subrange(0, 15));
            }
            lemma_begins_slabs_sp_automove_sp(cmd);
        },
        SlabsAutomoveArg::Two => {
            lemma_bytes_slabs_sp_automove_sp_2_end();
            lemma_bytes_slabs_sp_automove_sp();
            assert(b("slabs automove ").is_prefix_of(cmd)) by {
                assert forall|i: int| 0 <= i < 15 implies b("slabs automove ")[i] == cmd[i] by {
                    if i == 0 {
                    } else if i == 1 {
                    } else if i == 2 {
                    } else if i == 3 {
                    } else if i == 4 {
                    } else if i == 5 {
                    } else if i == 6 {
                    } else if i == 7 {
                    } else if i == 8 {
                    } else if i == 9 {
                    } else if i == 10 {
                    } else if i == 11 {
                    } else if i == 12 {
                    } else if i == 13 {
                    } else {
                    }
                }
                assert(b("slabs automove ") =~= cmd.subrange(0, 15));
            }
            lemma_begins_slabs_sp_automove_sp(cmd);
        },
    }
}

/// A `cache_memlimit` calls for the line `OK`, and for none where it asks for
/// silence.
pub proof fn law_cache_memlimit_shape(limit: usize, noreply: bool)
    ensures
        shape_of(cache_memlimit_request(limit, noreply)) == (Shape::Done { noreply }),
{
    let cmd = cache_memlimit_request(limit, noreply);
    lemma_bytes_cache_memlimit_sp();
    lemma_head(cmd, b("cache_memlimit "), dec(limit as nat) + noreply_text(noreply) + b("\r\n"));
    lemma_begins_cache_memlimit_sp(cmd);
    if noreply {
        lemma_silent(cmd, b("cache_memlimit ") + dec(limit as nat));
    } else {
        lemma_dec_plain(limit as nat);
        lemma_not_silent(cmd, b("cache_memlimit ") + dec(limit as nat));
    }
}

/// A `flush_all` calls for the line `OK`, and for none where it asks for
/// silence.
pub proof fn law_flush_all_shape(exptime: Option<i64>, noreply: bool)
    ensures
        shape_of(flush_all_request(exptime, noreply)) == (Shape::Done { noreply }),
{
    let cmd = flush_all_request(exptime, noreply);
    let delay = match exptime {
        Some(x) => b(" ") + dec_int(x as int),
        None => Seq::empty(),
    };
    lemma_bytes_flush_all();
    lemma_head(cmd, b("flush_all"), delay + noreply_text(noreply) + b("\r\n"));
    lemma_begins_flush_all(cmd);
    if noreply {
        lemma_silent(cmd, b("flush_all") + delay);
    } else {
        match exptime {
            Some(x) => {
                lemma_dec_int_plain(x as int);
            },
            None => {},
        }
        lemma_not_silent(cmd, b("flush_all") + delay);
    }
}

/// An authentication calls for its status, whatever the name and the
/// password.
pub proof fn law_auth_shape(username: Seq<u8>, password: Seq<u8>)
    ensures
        shape_of(auth_request(username, password)) == (Shape::Auth),
{
    let cmd = auth_request(username, password);
    lemma_bytes_set_sp_sp_sp_sp();
    lemma_head(
        cmd,
        b("set _ _ _ "),
        dec(
            username.len() + password.len() + 1,
        ) + b("\r\n") + username + b(" ") + password + b("\r\n"),
    );
    lemma_begins_set_sp_sp_sp_sp(cmd);
}

/// A `delete` calls for the status of a deletion, and for none where it asks
/// for silence. A key that itself ends in `noreply` passes for the token:
/// such a key is left out.
pub proof fn law_delete_shape(key: Seq<u8>, noreply: bool)
    requires
        noreply || !b("noreply").is_suffix_of(key),
    ensures
        shape_of(delete_request(key, noreply)) == (Shape::Delete { noreply }),
{
    let cmd = delete_request(key, noreply);
    lemma_bytes_delete_sp();
    lemma_head(cmd, b("delete "), key + noreply_text(noreply) + b("\r\n"));
    lemma_begins_delete_sp(cmd);
    lemma_noreply_bytes();
    if noreply {
        lemma_silent(cmd, b("delete ") + key);
    } else {
        if b("noreply\r\n").is_suffix_of(cmd) {
            let t = cmd.subrange(cmd.len() - 9, cmd.len() as int);
            assert(key.len() >= 7) by {
                if key.len() < 7 {
                    let j = 8 - key.len();
                    assert(t[j - 1] == cmd[cmd.len() - 9 + j - 1]);
                    assert(cmd[6] == 32);
                }
            }
            assert(key.subrange(key.len() - 7, key.len() as int) =~= b("noreply")) by {
                assert forall|i: int| 0 <= i < 7 implies key[key.len() - 7 + i] == b(
                    "noreply",
                )[i] by {
                    assert(t[i] == cmd[cmd.len() - 9 + i]);
                    assert(cmd[7 + (key.len() - 7 + i)] == key[key.len() - 7 + i]);
                }
            }
        }
    }
}

/// An `incr` or a `decr` calls for the new number, and for no reply where it
/// asks for silence.
pub proof fn law_incr_decr_shape(name: Seq<u8>, key: Seq<u8>, value: u64, noreply: bool)
    requires
        name == b("incr") || name == b("decr"),
    ensures
        shape_of(incr_decr_request(name, key, value, noreply)) == (Shape::Value { noreply }),
{
    let cmd = incr_decr_request(name, key, value, noreply);
    if name == b("incr") {
        lemma_bytes_incr();
        lemma_bytes_sp();
        lemma_head(
            cmd,
            name + b(" "),
            key + b(" ") + dec(value as nat) + noreply_text(noreply) + b("\r\n"),
        );
        lemma_bytes_incr_sp();
        assert(b("incr ").is_prefix_of(cmd)) by {
            assert forall|i: int| 0 <= i < 5 implies b("incr ")[i] == cmd[i] by {
                if i == 0 {
                } else if i == 1 {
                } else if i == 2 {
                } else if i == 3 {
                } else {
                }
            }
            assert(b("incr ") =~= cmd.subrange(0, 5));
        }
        lemma_begins_incr_sp(cmd);
    } else if name == b("decr") {
        lemma_bytes_decr();
        lemma_bytes_sp();
        lemma_head(
            cmd,
            name + b(" "),
            key + b(" ") + dec(value as nat) + noreply_text(noreply) + b("\r\n"),
        );
        lemma_bytes_decr_sp();
        assert(b("decr ").is_prefix_of(cmd)) by {
            assert forall|i: int| 0 <= i < 5 implies b("decr ")[i] == cmd[i] by {
                if i == 0 {
                } else if i == 1 {
                } else if i == 2 {
                } else if i == 3 {
                } else {
                }
            }
            assert(b("decr ") =~= cmd.subrange(0, 5));
        }
        lemma_begins_decr_sp(cmd);
    }
    if noreply {
        lemma_silent(cmd, name + b(" ") + key + b(" ") + dec(value as nat));
    } else {
        lemma_dec_plain(value as nat);
        lemma_not_silent(cmd, name + b(" ") + key + b(" ") + dec(value as nat));
    }
}

/// A `touch` calls for the status of a touch, and for none where it asks for
/// silence.
pub proof fn law_touch_shape(key: Seq<u8>, exptime: i64, noreply: bool)
    ensures
        shape_of(touch_request(key, exptime, noreply)) == (Shape::Touch { noreply }),
{
    let cmd = touch_request(key, exptime, noreply);
    lemma_bytes_touch_sp();
    lemma_head(
        cmd,
        b("touch "),
        key + b(" ") + dec_int(exptime as int) + noreply_text(noreply) + b("\r\n"),
    );
    lemma_begins_touch_sp(cmd);
    if noreply {
        lemma_silent(cmd, b("touch ") + key + b(" ") + dec_int(exptime as int));
    } else {
        lemma_dec_int_plain(exptime as int);
        lemma_not_silent(cmd, b("touch ") + key + b(" ") + dec_int(exptime as int));
    }
}

/// A `lru_crawler sleep` calls for the line `OK`.
pub proof fn law_lru_crawler_sleep_shape(microseconds: usize)
    ensures
        shape_of(lru_crawler_sleep_request(microseconds)) == (Shape::Done { noreply: false }),
{
    let cmd = lru_crawler_sleep_request(microseconds);
    lemma_bytes_lru_crawler_sp_sleep_sp();
    lemma_head(cmd, b("lru_crawler sleep "), dec(microseconds as nat) + b("\r\n"));
    lemma_begins_lru_crawler_sp_sleep_sp(cmd);
}

/// A `lru_crawler tocrawl` calls for the line `OK`.
pub proof fn law_lru_crawler_tocrawl_shape(arg: u32)
    ensures
        shape_of(lru_crawler_tocrawl_request(arg)) == (Shape::Done { noreply: false }),
{
    let cmd = lru_crawler_tocrawl_request(arg);
    lemma_bytes_lru_crawler_sp_tocrawl_sp();
    lemma_head(cmd, b("lru_crawler tocrawl "), dec(arg as nat) + b("\r\n"));
    lemma_begins_lru_crawler_sp_tocrawl_sp(cmd);
}

/// A `slabs reassign` calls for the line `OK`.
pub proof fn law_slabs_reassign_shape(source_class: usize, dest_class: usize)
    ensures
        shape_of(
            slabs_reassign_request(source_class, dest_class),
        ) == (Shape::Done { noreply: false }),
{
    let cmd = slabs_reassign_request(source_class, dest_class);
    lemma_bytes_slabs_sp_reassign_sp();
    lemma_head(
        cmd,
        b("slabs reassign "),
        dec(source_class as nat) + b(" ") + dec(dest_class as nat) + b("\r\n"),
    );
    lemma_begins_slabs_sp_reassign_sp(cmd);
}

/// A `me` calls for the debug line of the key.
pub proof fn law_me_shape(key: Seq<u8>)
    ensures
        shape_of(me_request(key)) == (Shape::Me),
{
    let cmd = me_request(key);
    lemma_bytes_me_sp();
    lemma_head(cmd, b("me "), key + b("\r\n"));
    lemma_begins_me_sp(cmd);
}

/// A `lru_crawler crawl` calls for the line `OK`.
pub proof fn law_lru_crawler_crawl_shape(arg: LruCrawlerCrawlArg)
    ensures
        shape_of(lru_crawler_crawl_request(arg)) == (Shape::Done { noreply: false }),
{
    let cmd = lru_crawler_crawl_request(arg);
    let what = match arg {
        LruCrawlerCrawlArg::Classids(ids) => dec_list(ids@),
        LruCrawlerCrawlArg::All => b("all"),
    };
    lemma_bytes_lru_crawler_sp_crawl_sp();
    lemma_head(cmd, b("lru_crawler crawl "), what + b("\r\n"));
    lemma_begins_lru_crawler_sp_crawl_sp(cmd);
}

/// A `lru_crawler metadump` calls for a dump of item metadata.
pub proof fn law_lru_crawler_metadump_shape(arg: LruCrawlerMetadumpArg)
    ensures
        shape_of(lru_crawler_metadump_request(arg)) == (Shape::Metadump),
{
    let cmd = lru_crawler_metadump_request(arg);
    let what = match arg {
        LruCrawlerMetadumpArg::Classids(ids) => dec_list(ids@),
        LruCrawlerMetadumpArg::All => b("all"),
        LruCrawlerMetadumpArg::Hash => b("hash"),
    };
    lemma_bytes_lru_crawler_sp_metadump_sp();
    lemma_head(cmd, b("lru_crawler metadump "), what + b("\r\n"));
    lemma_begins_lru_crawler_sp_metadump_sp(cmd);
}

/// A `lru_crawler mgdump` calls for a dump of keys.
pub proof fn law_lru_crawler_mgdump_shape(arg: LruCrawlerMgdumpArg)
    ensures
        shape_of(lru_crawler_mgdump_request(arg)) == (Shape::Mgdump),
{
    let cmd = lru_crawler_mgdump_request(arg);
    let what = match arg {
        LruCrawlerMgdumpArg::Classids(ids) => dec_list(ids@),
        LruCrawlerMgdumpArg::All => b("all"),
        LruCrawlerMgdumpArg::Hash => b("hash"),
    };
    lemma_bytes_lru_crawler_sp_mgdump_sp();
    lemma_head(cmd, b("lru_crawler mgdump "), what + b("\r\n"));
    lemma_begins_lru_crawler_sp_mgdump_sp(cmd);
}

/// A meta get calls for the reply to a meta get, whatever its key and
/// its flags.
pub proof fn law_mg_shape(key: Seq<u8>, flags: Seq<u8>)
    ensures
        shape_of(mc_request(b("mg"), key, flags, None)) == (Shape::MetaGet),
{
    let cmd = mc_request(b("mg"), key, flags, None);
    lemma_bytes_mg();
    lemma_bytes_sp();
    lemma_head(cmd, b("mg") + b(" "), key + flags + b("\r\n"));
    lemma_bytes_mg_sp();
    assert(b("mg ").is_prefix_of(cmd)) by {
        assert forall|i: int| 0 <= i < 3 implies b("mg ")[i] == cmd[i] by {
            if i == 0 {
            } else if i == 1 {
            } else {
            }
        }
        assert(b("mg ") =~= cmd.subrange(0, 3));
    }
    lemma_begins_mg_sp(cmd);
}

/// A meta set calls for the reply to a meta set, whatever its key and
/// its flags.
pub proof fn law_ms_shape(key: Seq<u8>, flags: Seq<u8>, data: Seq<u8>)
    ensures
        shape_of(mc_request(b("ms"), key, flags, Some(data))) == (Shape::MetaSet),
{
    let cmd = mc_request(b("ms"), key, flags, Some(data));
    lemma_bytes_ms();
    lemma_bytes_sp();
    lemma_head(
        cmd,
        b("ms") + b(" "),
        key + b(" ") + dec(data.len()) + flags + b("\r\n") + data + b("\r\n"),
    );
    lemma_bytes_ms_sp();
    assert(b("ms ").is_prefix_of(cmd)) by {
        assert forall|i: int| 0 <= i < 3 implies b("ms ")[i] == cmd[i] by {
            if i == 0 {
            } else if i == 1 {
            } else {
            }
        }
        assert(b("ms ") =~= cmd.subrange(0, 3));
    }
    lemma_begins_ms_sp(cmd);
}

/// A meta delete calls for the reply to a meta delete, whatever its key and
/// its flags.
pub proof fn law_md_shape(key: Seq<u8>, flags: Seq<u8>)
    ensures
        shape_of(mc_request(b("md"), key, flags, None)) == (Shape::MetaDelete),
{
    let cmd = mc_request(b("md"), key, flags, None);
    lemma_bytes_md();
    lemma_bytes_sp();
    lemma_head(cmd, b("md") + b(" "), key + flags + b("\r\n"));
    lemma_bytes_md_sp();
    assert(b("md ").is_prefix_of(cmd)) by {
        assert forall|i: int| 0 <= i < 3 implies b("md ")[i] == cmd[i] by {
            if i == 0 {
            } else if i == 1 {
            } else {
            }
        }
        assert(b("md ") =~= cmd.subrange(0, 3));
    }
    lemma_begins_md_sp(cmd);
}

/// A meta arithmetic calls for the reply to a meta arithmetic, whatever its key and
/// its flags.
pub proof fn law_ma_shape(key: Seq<u8>, flags: Seq<u8>)
    ensures
        shape_of(mc_request(b("ma"), key, flags, None)) == (Shape::MetaArithmetic),
{
    let cmd = mc_request(b("ma"), key, flags, None);
    lemma_bytes_ma();
    lemma_bytes_sp();
    lemma_head(cmd, b("ma") + b(" "), key + flags + b("\r\n"));
    lemma_bytes_ma_sp();
    assert(b("ma ").is_prefix_of(cmd)) by {
        assert forall|i: int| 0 <= i < 3 implies b("ma ")[i] == cmd[i] by {
            if i == 0 {
            } else if i == 1 {
            } else {
            }
        }
        assert(b("ma ") =~= cmd.subrange(0, 3));
    }
    lemma_begins_ma_sp(cmd);
}

/// A change of a setting of the LRU calls for the line `OK`.
pub proof fn law_lru_shape(arg: LruArg)
    ensures
        shape_of(lru_request(arg)) == (Shape::Done { noreply: false }),
{
    let cmd = lru_request(arg);
    match arg {
        LruArg::Tune { percent_hot, percent_warm, max_hot_factor, max_warm_factor } => {
            let rest = dec(percent_hot as nat) + b(" ") + dec(percent_warm as nat) + b(" ")
                + encode_utf8(max_hot_factor@) + b(" ") + encode_utf8(max_warm_factor@) + b(
                "\r\n",
            );
            lemma_bytes_lru_sp_tune_sp();
            lemma_head(cmd, b("lru tune "), rest);
            lemma_bytes_lru_sp();
            assert(b("lru ").is_prefix_of(cmd)) by {
                assert forall|i: int| 0 <= i < 4 implies b("lru ")[i] == cmd[i] by {
                    if i == 0 {
                    } else if i == 1 {
                    } else if i == 2 {
                    } else {
                    }
                }
                assert(b("lru ") =~= cmd.subrange(0, 4));
            }
            lemma_begins_lru_sp(cmd);
        },
        LruArg::Mode(LruMode::Flat) => {
            lemma_bytes_lru_sp_mode_sp_flat_end();
            lemma_bytes_lru_sp();
            assert(b("lru ").is_prefix_of(cmd)) by {
                assert forall|i: int| 0 <= i < 4 implies b("lru ")[i] == cmd[i] by {
                    if i == 0 {
                    } else if i == 1 {
                    } else if i == 2 {
                    } else {
                    }
                }
                assert(b("lru ") =~= cmd.subrange(0, 4));
            }
            lemma_begins_lru_sp(cmd);
        },
        LruArg::Mode(LruMode::Segmented) => {
            lemma_bytes_lru_sp_mode_sp_segmented_end();
            lemma_bytes_lru_sp();
            assert(b("lru ").is_prefix_of(cmd)) by {
                assert forall|i: int| 0 <= i < 4 implies b("lru ")[i] == cmd[i] by {
                    if i == 0 {
                    } else if i == 1 {
                    } else if i == 2 {
                    } else {
                    }
                }
                assert(b("lru ") =~= cmd.subrange(0, 4));
            }
            lemma_begins_lru_sp(cmd);
        },
        LruArg::TempTtl(ttl) => {
            lemma_bytes_lru_sp_temp_ttl_sp();
            lemma_head(cmd, b("lru temp_ttl "), dec_int(ttl as int) + b("\r\n"));
            lemma_bytes_lru_sp();
            assert(b("lru ").is_prefix_of(cmd)) by {
                assert forall|i: int| 0 <= i < 4 implies b("lru ")[i] == cmd[i] by {
                    if i == 0 {
                    } else if i == 1 {
                    } else if i == 2 {
                    } else {
                    }
                }
                assert(b("lru ") =~= cmd.subrange(0, 4));
            }
            lemma_begins_lru_sp(cmd);
        },
    }
}

proof fn lemma_prefix_grow(h: Seq<u8>, c: Seq<u8>, piece: Seq<u8>)
    requires
        h.is_prefix_of(c),
    ensures
        h.is_prefix_of(c + piece),
{
    assert((c + piece).subrange(0, h.len() as int) =~= c.subrange(0, h.len() as int));
}

proof fn lemma_prefixed(cmd: Seq<u8>, head: Seq<u8>)
    requires
        head.is_prefix_of(cmd),
    ensures
        forall|i: int| 0 <= i < head.len() ==> cmd[i] == head[i],
{
    assert forall|i: int| 0 <= i < head.len() implies cmd[i] == head[i] by {
        assert(cmd.subrange(0, head.len() as int)[i] == cmd[i]);
    }
}

proof fn lemma_not_auth(cmd: Seq<u8>, head: Seq<u8>, key: Seq<u8>, number: Seq<u8>)
    requires
        (head + key + b(" ") + number).is_prefix_of(cmd),
        head.len() == 4,
        plain(key),
        ends_in_digit(number),
        all_digits(number),
    ensures
        !b("set _ _ _ ").is_prefix_of(cmd),
{
    lemma_bytes_set_sp_sp_sp_sp();
    lemma_bytes_sp();
    let p = b("set _ _ _ ");
    let front = head + key + b(" ") + number;
    lemma_prefixed(cmd, front);
    if key.len() == 0 {
        assert(front[4] == 32);
        lemma_differ_at(p, cmd, 4);
    } else if key.len() == 1 {
        assert(front[5] == 32);
        assert(front[6] == number[0]);
        lemma_differ_at(p, cmd, 6);
    } else {
        assert(front[5] == key[1]);
        lemma_differ_at(p, cmd, 5);
    }
}

proof fn lemma_noreply_text_lacks_cr(noreply: bool)
    ensures
        lacks(noreply_text(noreply), CR),
        lacks(b(" "), CR),
{
    lemma_bytes_sp_noreply();
    lemma_bytes_sp();
    if noreply {
        assert(lacks(b(" noreply"), CR)) by {
            assert forall|i: int| 0 <= i < 8 implies #[trigger] b(" noreply")[i] != CR by {
                if i == 0 {
                } else if i == 1 {
                } else if i == 2 {
                } else if i == 3 {
                } else if i == 4 {
                } else if i == 5 {
                } else if i == 6 {
                } else {
                }
            }
        }
    }
}

proof fn lemma_spaces()
    ensures
        count(b(" "), SP) == 1,
        count(b("\r\n"), SP) == 0,
{
    lemma_bytes_sp();
    lemma_bytes_end();
    lemma_count_one(b(" "), SP);
    assert(lacks(b("\r\n"), SP)) by {
        assert forall|i: int| 0 <= i < 2 implies #[trigger] b("\r\n")[i] != SP by {
            if i == 0 {
            } else {
            }
        }
    }
    lemma_count_none(b("\r\n"), SP);
}

proof fn lemma_storage_name(name: Seq<u8>)
    requires
        name == b("set") || name == b("add") || name == b("replace") || name == b("append")
            || name == b("prepend") || name == b("cas"),
    ensures
        lacks(name, CR),
        name == b("set") ==> (name + b(" ")).len() == 4,
{
    lemma_bytes_sp();
    if name == b("set") {
        lemma_bytes_set();
        assert(lacks(name, CR)) by {
            assert forall|i: int| 0 <= i < 3 implies #[trigger] name[i] != CR by {
                if i == 0 {
                } else if i == 1 {
                } else {
                }
            }
        }
    } else if name == b("add") {
        lemma_bytes_add();
        assert(lacks(name, CR)) by {
            assert forall|i: int| 0 <= i < 3 implies #[trigger] name[i] != CR by {
                if i == 0 {
                } else if i == 1 {
                } else {
                }
            }
        }
    } else if name == b("replace") {
        lemma_bytes_replace();
        assert(lacks(name, CR)) by {
            assert forall|i: int| 0 <= i < 7 implies #[trigger] name[i] != CR by {
                if i == 0 {
                } else if i == 1 {
                } else if i == 2 {
                } else if i == 3 {
                } else if i == 4 {
                } else if i == 5 {
                } else {
                }
            }
        }
    } else if name == b("append") {
        lemma_bytes_append();
        assert(lacks(name, CR)) by {
            assert forall|i: int| 0 <= i < 6 implies #[trigger] name[i] != CR by {
                if i == 0 {
                } else if i == 1 {
                } else if i == 2 {
                } else if i == 3 {
                } else if i == 4 {
                } else {
                }
            }
        }
    } else if name == b("prepend") {
        lemma_bytes_prepend();
        assert(lacks(name, CR)) by {
            assert forall|i: int| 0 <= i < 7 implies #[trigger] name[i] != CR by {
                if i == 0 {
                } else if i == 1 {
                } else if i == 2 {
                } else if i == 3 {
                } else if i == 4 {
                } else if i == 5 {
                } else {
                }
            }
        }
    } else if name == b("cas") {
        lemma_bytes_cas();
        assert(lacks(name, CR)) by {
            assert forall|i: int| 0 <= i < 3 implies #[trigger] name[i] != CR by {
                if i == 0 {
                } else if i == 1 {
                } else {
                }
            }
        }
    }
}

proof fn lemma_storage_verb(cmd: Seq<u8>, name: Seq<u8>)
    requires
        name == b("set") || name == b("add") || name == b("replace") || name == b("append")
            || name == b("prepend") || name == b("cas"),
        (name + b(" ")).is_prefix_of(cmd),
        name == b("set") ==> !b("set _ _ _ ").is_prefix_of(cmd),
    ensures
        shape_of(cmd) == (Shape::Storage { noreply: b("noreply").is_suffix_of(first_line(cmd)) }),
{
    if name == b("set") {
        lemma_bytes_set();
        lemma_bytes_sp();
        lemma_prefixed(cmd, name + b(" "));
        lemma_bytes_set_sp();
        assert(b("set ").is_prefix_of(cmd)) by {
            assert forall|i: int| 0 <= i < 4 implies b("set ")[i] == cmd[i] by {
                if i == 0 {
                } else if i == 1 {
                } else if i == 2 {
                } else {
                }
            }
            assert(b("set ") =~= cmd.subrange(0, 4));
        }
        lemma_begins_set_sp(cmd);
    } else if name == b("add") {
        lemma_bytes_add();
        lemma_bytes_sp();
        lemma_prefixed(cmd, name + b(" "));
        lemma_bytes_add_sp();
        assert(b("add ").is_prefix_of(cmd)) by {
            assert forall|i: int| 0 <= i < 4 implies b("add ")[i] == cmd[i] by {
                if i == 0 {
                } else if i == 1 {
                } else if i == 2 {
                } else {
                }
            }
            assert(b("add ") =~= cmd.subrange(0, 4));
        }
        lemma_begins_add_sp(cmd);
    } else if name == b("replace") {
        lemma_bytes_replace();
        lemma_bytes_sp();
        lemma_prefixed(cmd, name + b(" "));
        lemma_bytes_replace_sp();
        assert(b("replace ").is_prefix_of(cmd)) by {
            assert forall|i: int| 0 <= i < 8 implies b("replace ")[i] == cmd[i] by {
                if i == 0 {
                } else if i == 1 {
                } else if i == 2 {
                } else if i == 3 {
                } else if i == 4 {
                } else if i == 5 {
                } else if i == 6 {
                } else {
                }
            }
            assert(b("replace ") =~= cmd.subrange(0, 8));
        }
        lemma_begins_replace_sp(cmd);
    } else if name == b("append") {
        lemma_bytes_append();
        lemma_bytes_sp();
        lemma_prefixed(cmd, name + b(" "));
        lemma_bytes_append_sp();
        assert(b("append ").is_prefix_of(cmd)) by {
            assert forall|i: int| 0 <= i < 7 implies b("append ")[i] == cmd[i] by {
                if i == 0 {
                } else if i == 1 {
                } else if i == 2 {
                } else if i == 3 {
                } else if i == 4 {
                } else if i == 5 {
                } else {
                }
            }
            assert(b("append ") =~= cmd.subrange(0, 7));
        }
        lemma_begins_append_sp(cmd);
    } else if name == b("prepend") {
        lemma_bytes_prepend();
        lemma_bytes_sp();
        lemma_prefixed(cmd, name + b(" "));
        lemma_bytes_prepend_sp();
        assert(b("prepend ").is_prefix_of(cmd)) by {
            assert forall|i: int| 0 <= i < 8 implies b("prepend ")[i] == cmd[i] by {
                if i == 0 {
                } else if i == 1 {
                } else if i == 2 {
                } else if i == 3 {
                } else if i == 4 {
                } else if i == 5 {
                } else if i == 6 {
                } else {
                }
            }
            assert(b("prepend ") =~= cmd.subrange(0, 8));
        }
        lemma_begins_prepend_sp(cmd);
    } else if name == b("cas") {
        lemma_bytes_cas();
        lemma_bytes_sp();
        lemma_prefixed(cmd, name + b(" "));
        lemma_bytes_cas_sp();
        assert(b("cas ").is_prefix_of(cmd)) by {
            assert forall|i: int| 0 <= i < 4 implies b("cas ")[i] == cmd[i] by {
                if i == 0 {
                } else if i == 1 {
                } else if i == 2 {
                } else {
                }
            }
            assert(b("cas ") =~= cmd.subrange(0, 4));
        }
        lemma_begins_cas_sp(cmd);
    }
}

proof fn lemma_storage_line(
    name: Seq<u8>,
    key: Seq<u8>,
    flags: u32,
    exptime: i64,
    cas_unique: Option<u64>,
    noreply: bool,
    size: nat,
) -> (line: Seq<u8>)
    requires
        lacks(name, CR),
        plain(key),
    ensures
        line =~= name + b(" ") + key + b(" ") + dec(flags as nat) + b(" ") + dec_int(exptime as int)
            + b(" ") + dec(size) + (match cas_unique {
            Some(c) => b(" ") + dec(c as nat),
            None => Seq::empty(),
        }) + noreply_text(noreply),
        lacks(line, CR),
        noreply <==> b("noreply").is_suffix_of(line),
{
    let token = match cas_unique {
        Some(c) => b(" ") + dec(c as nat),
        None => Seq::empty(),
    };
    let one = name + b(" ");
    let two = one + key;
    let three = two + b(" ");
    let four = three + dec(flags as nat);
    let five = four + b(" ");
    let six = five + dec_int(exptime as int);
    let seven = six + b(" ");
    let eight = seven + dec(size);
    let quiet = eight + token;
    let line = quiet + noreply_text(noreply);
    lemma_dec_plain(flags as nat);
    lemma_dec_int_plain(exptime as int);
    lemma_dec_plain(size);
    lemma_noreply_text_lacks_cr(noreply);
    lemma_plain_lacks(key);
    lemma_plain_lacks(dec(flags as nat));
    lemma_plain_lacks(dec_int(exptime as int));
    lemma_plain_lacks(dec(size));
    match cas_unique {
        Some(c) => {
            lemma_dec_plain(c as nat);
            lemma_plain_lacks(dec(c as nat));
            lemma_lacks_concat(b(" "), dec(c as nat), CR);
        },
        None => {},
    }
    lemma_lacks_concat(name, b(" "), CR);
    lemma_lacks_concat(one, key, CR);
    lemma_lacks_concat(two, b(" "), CR);
    lemma_lacks_concat(three, dec(flags as nat), CR);
    lemma_lacks_concat(four, b(" "), CR);
    lemma_lacks_concat(five, dec_int(exptime as int), CR);
    lemma_lacks_concat(six, b(" "), CR);
    lemma_lacks_concat(seven, dec(size), CR);
    lemma_lacks_concat(eight, token, CR);
    lemma_lacks_concat(quiet, noreply_text(noreply), CR);
    if noreply {
        lemma_noreply_bytes();
        lemma_tail(line, quiet + seq![32u8], b("noreply"));
    } else {
        assert(line =~= quiet);
        assert(ends_in_digit(line));
        lemma_line_not_silent(line);
    }
    line
}

proof fn lemma_storage_prefixes(
    name: Seq<u8>,
    key: Seq<u8>,
    flags: u32,
    exptime: i64,
    cas_unique: Option<u64>,
    noreply: bool,
    data: Seq<u8>,
)
    requires
        name == b("set") || name == b("add") || name == b("replace") || name == b("append")
            || name == b("prepend") || name == b("cas"),
        plain(key),
    ensures
        shape_of(storage_request(name, key, flags, exptime, cas_unique, noreply, data)) == (
        Shape::Storage {
            noreply: b("noreply").is_suffix_of(
                first_line(storage_request(name, key, flags, exptime, cas_unique, noreply, data)),
            ),
        }),
        lacks(name, CR),
{
    let cmd = storage_request(name, key, flags, exptime, cas_unique, noreply, data);
    let token = match cas_unique {
        Some(c) => b(" ") + dec(c as nat),
        None => Seq::empty(),
    };
    let one = name + b(" ");
    let two = one + key;
    let three = two + b(" ");
    let four = three + dec(flags as nat);
    let five = four + b(" ");
    let six = five + dec_int(exptime as int);
    let seven = six + b(" ");
    let eight = seven + dec(data.len());
    let nine = eight + token;
    let ten = nine + noreply_text(noreply);
    let eleven = ten + b("\r\n");
    let twelve = eleven + data;
    assert(one.is_prefix_of(one)) by {
        assert(one.subrange(0, one.len() as int) =~= one);
    }
    lemma_prefix_grow(one, one, key);
    lemma_prefix_grow(one, two, b(" "));
    lemma_prefix_grow(one, three, dec(flags as nat));
    assert(four.is_prefix_of(four)) by {
        assert(four.subrange(0, four.len() as int) =~= four);
    }
    lemma_prefix_grow(one, four, b(" "));
    lemma_prefix_grow(four, four, b(" "));
    lemma_prefix_grow(one, five, dec_int(exptime as int));
    lemma_prefix_grow(four, five, dec_int(exptime as int));
    lemma_prefix_grow(one, six, b(" "));
    lemma_prefix_grow(four, six, b(" "));
    lemma_prefix_grow(one, seven, dec(data.len()));
    lemma_prefix_grow(four, seven, dec(data.len()));
    lemma_prefix_grow(one, eight, token);
    lemma_prefix_grow(four, eight, token);
    lemma_prefix_grow(one, nine, noreply_text(noreply));
    lemma_prefix_grow(four, nine, noreply_text(noreply));
    lemma_prefix_grow(one, ten, b("\r\n"));
    lemma_prefix_grow(four, ten, b("\r\n"));
    lemma_prefix_grow(one, eleven, data);
    lemma_prefix_grow(four, eleven, data);
    lemma_prefix_grow(one, twelve, b("\r\n"));
    lemma_prefix_grow(four, twelve, b("\r\n"));
    assert(cmd == twelve + b("\r\n"));
    lemma_storage_name(name);
    if name == b("set") {
        lemma_dec_plain(flags as nat);
        lemma_not_auth(cmd, one, key, dec(flags as nat));
    }
    lemma_storage_verb(cmd, name);
}

proof fn lemma_storage_first_line(
    name: Seq<u8>,
    key: Seq<u8>,
    flags: u32,
    exptime: i64,
    cas_unique: Option<u64>,
    noreply: bool,
    data: Seq<u8>,
)
    requires
        lacks(name, CR),
        plain(key),
    ensures
        noreply <==> b("noreply").is_suffix_of(
            first_line(storage_request(name, key, flags, exptime, cas_unique, noreply, data)),
        ),
{
    let cmd = storage_request(name, key, flags, exptime, cas_unique, noreply, data);
    let line = lemma_storage_line(name, key, flags, exptime, cas_unique, noreply, data.len());
    assert(cmd =~= line + b("\r\n") + (data + b("\r\n")));
    lemma_first_line(cmd, line, data + b("\r\n"));
}

/// A storage command calls for the status of a storage command, and for
/// none where it asks for silence: the token is looked for on the first line
/// alone, so that data that ends in `noreply` does not pass for it. The key
/// holds neither a space nor a control byte.
pub proof fn law_storage_shape(
    name: Seq<u8>,
    key: Seq<u8>,
    flags: u32,
    exptime: i64,
    cas_unique: Option<u64>,
    noreply: bool,
    data: Seq<u8>,
)
    requires
        name == b("set") || name == b("add") || name == b("replace") || name == b("append")
            || name == b("prepend") || name == b("cas"),
        plain(key),
    ensures
        shape_of(
            storage_request(name, key, flags, exptime, cas_unique, noreply, data),
        ) == (Shape::Storage { noreply }),
{
    let cmd = storage_request(name, key, flags, exptime, cas_unique, noreply, data);
    lemma_storage_prefixes(name, key, flags, exptime, cas_unique, noreply, data);
    lemma_storage_first_line(name, key, flags, exptime, cas_unique, noreply, data);
}

proof fn lemma_retrieval_verb(cmd: Seq<u8>, name: Seq<u8>, rest: Seq<u8>)
    requires
        name == b("get") || name == b("gets") || name == b("gat") || name == b("gats"),
        cmd =~= name + b(" ") + rest,
    ensures
        shape_of(cmd) == (if is_single_key(cmd) {
            Shape::OptionItem
        } else {
            Shape::VecItem
        }),
        b("get").is_prefix_of(cmd) <==> (name == b("get") || name == b("gets")),
        b("gat").is_prefix_of(cmd) <==> (name == b("gat") || name == b("gats")),
        !(b("get").is_prefix_of(cmd) && b("gat").is_prefix_of(cmd)),
        lacks(name, SP),
{
    lemma_bytes_get();
    lemma_bytes_gets();
    lemma_bytes_gat();
    lemma_bytes_gats();
    if name == b("get") {
        lemma_bytes_get();
        lemma_bytes_sp();
        lemma_head(cmd, name + b(" "), rest);
        lemma_bytes_get_sp();
        assert(b("get ").is_prefix_of(cmd)) by {
            assert forall|i: int| 0 <= i < 4 implies b("get ")[i] == cmd[i] by {
                if i == 0 {
                } else if i == 1 {
                } else if i == 2 {
                } else {
                }
            }
            assert(b("get ") =~= cmd.subrange(0, 4));
        }
        lemma_begins_get_sp(cmd);
        assert(lacks(name, SP)) by {
            assert forall|i: int| 0 <= i < 3 implies #[trigger] name[i] != SP by {
                if i == 0 {
                } else if i == 1 {
                } else {
                }
            }
        }
        lemma_bytes_gat();
        lemma_differ_at(b("gat"), cmd, 1);
        lemma_bytes_get();
        assert(b("get").is_prefix_of(cmd)) by {
            assert forall|i: int| 0 <= i < 3 implies b("get")[i] == cmd[i] by {
                if i == 0 {
                } else if i == 1 {
                } else {
                }
            }
            assert(b("get") =~= cmd.subrange(0, 3));
        }
    } else if name == b("gets") {
        lemma_bytes_gets();
        lemma_bytes_sp();
        lemma_head(cmd, name + b(" "), rest);
        lemma_bytes_gets_sp();
        assert(b("gets ").is_prefix_of(cmd)) by {
            assert forall|i: int| 0 <= i < 5 implies b("gets ")[i] == cmd[i] by {
                if i == 0 {
                } else if i == 1 {
                } else if i == 2 {
                } else if i == 3 {
                } else {
                }
            }
            assert(b("gets ") =~= cmd.subrange(0, 5));
        }
        lemma_begins_gets_sp(cmd);
        assert(lacks(name, SP)) by {
            assert forall|i: int| 0 <= i < 4 implies #[trigger] name[i] != SP by {
                if i == 0 {
                } else if i == 1 {
                } else if i == 2 {
                } else {
                }
            }
        }
        lemma_bytes_gat();
        lemma_differ_at(b("gat"), cmd, 1);
        lemma_bytes_get();
        assert(b("get").is_prefix_of(cmd)) by {
            assert forall|i: int| 0 <= i < 3 implies b("get")[i] == cmd[i] by {
                if i == 0 {
                } else if i == 1 {
                } else {
                }
            }
            assert(b("get") =~= cmd.subrange(0, 3));
        }
    } else if name == b("gat") {
        lemma_bytes_gat();
        lemma_bytes_sp();
        lemma_head(cmd, name + b(" "), rest);
        lemma_bytes_gat_sp();
        assert(b("gat ").is_prefix_of(cmd)) by {
            assert forall|i: int| 0 <= i < 4 implies b("gat ")[i] == cmd[i] by {
                if i == 0 {
                } else if i == 1 {
                } else if i == 2 {
                } else {
                }
            }
            assert(b("gat ") =~= cmd.subrange(0, 4));
        }
        lemma_begins_gat_sp(cmd);
        assert(lacks(name, SP)) by {
            assert forall|i: int| 0 <= i < 3 implies #[trigger] name[i] != SP by {
                if i == 0 {
                } else if i == 1 {
                } else {
                }
            }
        }
        lemma_bytes_get();
        lemma_differ_at(b("get"), cmd, 1);
        lemma_bytes_gat();
        assert(b("gat").is_prefix_of(cmd)) by {
            assert forall|i: int| 0 <= i < 3 implies b("gat")[i] == cmd[i] by {
                if i == 0 {
                } else if i == 1 {
                } else {
                }
            }
            assert(b("gat") =~= cmd.subrange(0, 3));
        }
    } else if name == b("gats") {
        lemma_bytes_gats();
        lemma_bytes_sp();
        lemma_head(cmd, name + b(" "), rest);
        lemma_bytes_gats_sp();
        assert(b("gats ").is_prefix_of(cmd)) by {
            assert forall|i: int| 0 <= i < 5 implies b("gats ")[i] == cmd[i] by {
                if i == 0 {
                } else if i == 1 {
                } else if i == 2 {
                } else if i == 3 {
                } else {
                }
            }
            assert(b("gats ") =~= cmd.subrange(0, 5));
        }
        lemma_begins_gats_sp(cmd);
        assert(lacks(name, SP)) by {
            assert forall|i: int| 0 <= i < 4 implies #[trigger] name[i] != SP by {
                if i == 0 {
                } else if i == 1 {
                } else if i == 2 {
                } else {
                }
            }
        }
        lemma_bytes_get();
        lemma_differ_at(b("get"), cmd, 1);
        lemma_bytes_gat();
        assert(b("gat").is_prefix_of(cmd)) by {
            assert forall|i: int| 0 <= i < 3 implies b("gat")[i] == cmd[i] by {
                if i == 0 {
                } else if i == 1 {
                } else {
                }
            }
            assert(b("gat") =~= cmd.subrange(0, 3));
        }
    }
}

proof fn lemma_retrieval_spaces(name: Seq<u8>, exptime: Option<i64>, keys: Seq<Seq<u8>>)
    requires
        lacks(name, SP),
        forall|k: int| 0 <= k < keys.len() ==> plain(#[trigger] keys[k]),
    ensures
        count(retrieval_request(name, exptime, keys), SP) == (if exptime is Some {
            2int
        } else {
            1int
        }) + (if keys.len() == 0 {
            0int
        } else {
            keys.len() - 1
        }),
{
    let expiry = match exptime {
        Some(x) => dec_int(x as int) + b(" "),
        None => Seq::empty(),
    };
    lemma_spaces();
    lemma_count_none(name, SP);
    lemma_count_concat(name, b(" "), SP);
    lemma_count_concat(name + b(" "), expiry, SP);
    lemma_count_concat(name + b(" ") + expiry, join_sp(keys), SP);
    lemma_count_concat(name + b(" ") + expiry + join_sp(keys), b("\r\n"), SP);
    lemma_count_join(keys);
    match exptime {
        Some(x) => {
            lemma_dec_int_plain(x as int);
            lemma_plain_lacks(dec_int(x as int));
            lemma_count_concat(dec_int(x as int), b(" "), SP);
            lemma_count_none(dec_int(x as int), SP);
        },
        None => {
            assert(lacks(expiry, SP));
            lemma_count_none(expiry, SP);
        },
    }
}

/// A retrieval calls for one entry where it names at most one key, and for
/// a list of entries where it names more: a `get` or `gets` that was asked
/// for several keys and was given one is read as a retrieval of one key. The
/// keys hold neither a space nor a control byte; `gat` and `gats` carry an
/// expiry, `get` and `gets` none.
pub proof fn law_retrieval_shape(name: Seq<u8>, exptime: Option<i64>, keys: Seq<Seq<u8>>)
    requires
        forall|k: int| 0 <= k < keys.len() ==> plain(#[trigger] keys[k]),
        (exptime is None && (name == b("get") || name == b("gets"))) || (exptime is Some && (name
            == b("gat") || name == b("gats"))),
    ensures
        shape_of(retrieval_request(name, exptime, keys)) == (if keys.len() <= 1 {
            Shape::OptionItem
        } else {
            Shape::VecItem
        }),
{
    let cmd = retrieval_request(name, exptime, keys);
    let expiry = match exptime {
        Some(x) => dec_int(x as int) + b(" "),
        None => Seq::empty(),
    };
    lemma_retrieval_verb(cmd, name, expiry + join_sp(keys) + b("\r\n"));
    lemma_retrieval_spaces(name, exptime, keys);
}

proof fn lemma_bytes_sp_noreply()
    ensures
        b(" noreply").len() == 8,
        b(" noreply")[0] == 32,
        b(" noreply")[1] == 110,
        b(" noreply")[2] == 111,
        b(" noreply")[3] == 114,
        b(" noreply")[4] == 101,
        b(" noreply")[5] == 112,
        b(" noreply")[6] == 108,
        b(" noreply")[7] == 121,
{
    broadcast use is_ascii_spec_bytes;

    reveal_strlit(" noreply");
    assert(is_ascii(" noreply"));
}

proof fn lemma_bytes_noreply_end()
    ensures
        b("noreply\r\n").len() == 9,
        b("noreply\r\n")[0] == 110,
        b("noreply\r\n")[1] == 111,
        b("noreply\r\n")[2] == 114,
        b("noreply\r\n")[3] == 101,
        b("noreply\r\n")[4] == 112,
        b("noreply\r\n")[5] == 108,
        b("noreply\r\n")[6] == 121,
        b("noreply\r\n")[7] == 13,
        b("noreply\r\n")[8] == 10,
{
    broadcast use is_ascii_spec_bytes;

    reveal_strlit("noreply\r\n");
    assert(is_ascii("noreply\r\n"));
}

proof fn lemma_bytes_noreply()
    ensures
        b("noreply").len() == 7,
        b("noreply")[0] == 110,
        b("noreply")[1] == 111,
        b("noreply")[2] == 114,
        b("noreply")[3] == 101,
        b("noreply")[4] == 112,
        b("noreply")[5] == 108,
        b("noreply")[6] == 121,
{
    broadcast use is_ascii_spec_bytes;

    reveal_strlit("noreply");
    assert(is_ascii("noreply"));
}

proof fn lemma_bytes_end()
    ensures
        b("\r\n").len() == 2,
        b("\r\n")[0] == 13,
        b("\r\n")[1] == 10,
{
    broadcast use is_ascii_spec_bytes;

    reveal_strlit("\r\n");
    assert(is_ascii("\r\n"));
}

proof fn lemma_bytes_sp()
    ensures
        b(" ").len() == 1,
        b(" ")[0] == 32,
{
    broadcast use is_ascii_spec_bytes;

    reveal_strlit(" ");
    assert(is_ascii(" "));
}

proof fn lemma_bytes_gets_sp()
    ensures
        b("gets ").len() == 5,
        b("gets ")[0] == 103,
        b("gets ")[1] == 101,
        b("gets ")[2] == 116,
        b("gets ")[3] == 115,
        b("gets ")[4] == 32,
{
    broadcast use is_ascii_spec_bytes;

    reveal_strlit("gets ");
    assert(is_ascii("gets "));
}

proof fn lemma_bytes_get_sp()
    ensures
        b("get ").len() == 4,
        b("get ")[0] == 103,
        b("get ")[1] == 101,
        b("get ")[2] == 116,
        b("get ")[3] == 32,
{
    broadcast use is_ascii_spec_bytes;

    reveal_strlit("get ");
    assert(is_ascii("get "));
}

proof fn lemma_bytes_gats_sp()
    ensures
        b("gats ").len() == 5,
        b("gats ")[0] == 103,
        b("gats ")[1] == 97,
        b("gats ")[2] == 116,
        b("gats ")[3] == 115,
        b("gats ")[4] == 32,
{
    broadcast use is_ascii_spec_bytes;

    reveal_strlit("gats ");
    assert(is_ascii("gats "));
}

proof fn lemma_bytes_gat_sp()
    ensures
        b("gat ").len() == 4,
        b("gat ")[0] == 103,
        b("gat ")[1] == 97,
        b("gat ")[2] == 116,
        b("gat ")[3] == 32,
{
    broadcast use is_ascii_spec_bytes;

    reveal_strlit("gat ");
    assert(is_ascii("gat "));
}

proof fn lemma_bytes_set_sp_sp_sp_sp()
    ensures
        b("set _ _ _ ").len() == 10,
        b("set _ _ _ ")[0] == 115,
        b("set _ _ _ ")[1] == 101,
        b("set _ _ _ ")[2] == 116,
        b("set _ _ _ ")[3] == 32,
        b("set _ _ _ ")[4] == 95,
        b("set _ _ _ ")[5] == 32,
        b("set _ _ _ ")[6] == 95,
        b("set _ _ _ ")[7] == 32,
        b("set _ _ _ ")[8] == 95,
        b("set _ _ _ ")[9] == 32,
{
    broadcast use is_ascii_spec_bytes;

    reveal_strlit("set _ _ _ ");
    assert(is_ascii("set _ _ _ "));
}

proof fn lemma_bytes_set_sp()
    ensures
        b("set ").len() == 4,
        b("set ")[0] == 115,
        b("set ")[1] == 101,
        b("set ")[2] == 116,
        b("set ")[3] == 32,
{
    broadcast use is_ascii_spec_bytes;

    reveal_strlit("set ");
    assert(is_ascii("set "));
}

proof fn lemma_bytes_add_sp()
    ensures
        b("add ").len() == 4,
        b("add ")[0] == 97,
        b("add ")[1] == 100,
        b("add ")[2] == 100,
        b("add ")[3] == 32,
{
    broadcast use is_ascii_spec_bytes;

    reveal_strlit("add ");
    assert(is_ascii("add "));
}

proof fn lemma_bytes_replace_sp()
    ensures
        b("replace ").len() == 8,
        b("replace ")[0] == 114,
        b("replace ")[1] == 101,
        b("replace ")[2] == 112,
        b("replace ")[3] == 108,
        b("replace ")[4] == 97,
        b("replace ")[5] == 99,
        b("replace ")[6] == 101,
        b("replace ")[7] == 32,
{
    broadcast use is_ascii_spec_bytes;

    reveal_strlit("replace ");
    assert(is_ascii("replace "));
}

proof fn lemma_bytes_append_sp()
    ensures
        b("append ").len() == 7,
        b("append ")[0] == 97,
        b("append ")[1] == 112,
        b("append ")[2] == 112,
        b("append ")[3] == 101,
        b("append ")[4] == 110,
        b("append ")[5] == 100,
        b("append ")[6] == 32,
{
    broadcast use is_ascii_spec_bytes;

    reveal_strlit("append ");
    assert(is_ascii("append "));
}

proof fn lemma_bytes_prepend_sp()
    ensures
        b("prepend ").len() == 8,
        b("prepend ")[0] == 112,
        b("prepend ")[1] == 114,
        b("prepend ")[2] == 101,
        b("prepend ")[3] == 112,
        b("prepend ")[4] == 101,
        b("prepend ")[5] == 110,
        b("prepend ")[6] == 100,
        b("prepend ")[7] == 32,
{
    broadcast use is_ascii_spec_bytes;

    reveal_strlit("prepend ");
    assert(is_ascii("prepend "));
}

proof fn lemma_bytes_cas_sp()
    ensures
        b("cas ").len() == 4,
        b("cas ")[0] == 99,
        b("cas ")[1] == 97,
        b("cas ")[2] == 115,
        b("cas ")[3] == 32,
{
    broadcast use is_ascii_spec_bytes;

    reveal_strlit("cas ");
    assert(is_ascii("cas "));
}

proof fn lemma_bytes_version_end()
    ensures
        b("version\r\n").len() == 9,
        b("version\r\n")[0] == 118,
        b("version\r\n")[1] == 101,
        b("version\r\n")[2] == 114,
        b("version\r\n")[3] == 115,
        b("version\r\n")[4] == 105,
        b("version\r\n")[5] == 111,
        b("version\r\n")[6] == 110,
        b("version\r\n")[7] == 13,
        b("version\r\n")[8] == 10,
{
    broadcast use is_ascii_spec_bytes;

    reveal_strlit("version\r\n");
    assert(is_ascii("version\r\n"));
}

proof fn lemma_bytes_delete_sp()
    ensures
        b("delete ").len() == 7,
        b("delete ")[0] == 100,
        b("delete ")[1] == 101,
        b("delete ")[2] == 108,
        b("delete ")[3] == 101,
        b("delete ")[4] == 116,
        b("delete ")[5] == 101,
        b("delete ")[6] == 32,
{
    broadcast use is_ascii_spec_bytes;

    reveal_strlit("delete ");
    assert(is_ascii("delete "));
}

proof fn lemma_bytes_incr_sp()
    ensures
        b("incr ").len() == 5,
        b("incr ")[0] == 105,
        b("incr ")[1] == 110,
        b("incr ")[2] == 99,
        b("incr ")[3] == 114,
        b("incr ")[4] == 32,
{
    broadcast use is_ascii_spec_bytes;

    reveal_strlit("incr ");
    assert(is_ascii("incr "));
}

proof fn lemma_bytes_decr_sp()
    ensures
        b("decr ").len() == 5,
        b("decr ")[0] == 100,
        b("decr ")[1] == 101,
        b("decr ")[2] == 99,
        b("decr ")[3] == 114,
        b("decr ")[4] == 32,
{
    broadcast use is_ascii_spec_bytes;

    reveal_strlit("decr ");
    assert(is_ascii("decr "));
}

proof fn lemma_bytes_touch_sp()
    ensures
        b("touch ").len() == 6,
        b("touch ")[0] == 116,
        b("touch ")[1] == 111,
        b("touch ")[2] == 117,
        b("touch ")[3] == 99,
        b("touch ")[4] == 104,
        b("touch ")[5] == 32,
{
    broadcast use is_ascii_spec_bytes;

    reveal_strlit("touch ");
    assert(is_ascii("touch "));
}

proof fn lemma_bytes_quit_end()
    ensures
        b("quit\r\n").len() == 6,
        b("quit\r\n")[0] == 113,
        b("quit\r\n")[1] == 117,
        b("quit\r\n")[2] == 105,
        b("quit\r\n")[3] == 116,
        b("quit\r\n")[4] == 13,
        b("quit\r\n")[5] == 10,
{
    broadcast use is_ascii_spec_bytes;

    reveal_strlit("quit\r\n");
    assert(is_ascii("quit\r\n"));
}

proof fn lemma_bytes_shutdown()
    ensures
        b("shutdown").len() == 8,
        b("shutdown")[0] == 115,
        b("shutdown")[1] == 104,
        b("shutdown")[2] == 117,
        b("shutdown")[3] == 116,
        b("shutdown")[4] == 100,
        b("shutdown")[5] == 111,
        b("shutdown")[6] == 119,
        b("shutdown")[7] == 110,
{
    broadcast use is_ascii_spec_bytes;

    reveal_strlit("shutdown");
    assert(is_ascii("shutdown"));
}

proof fn lemma_bytes_flush_all()
    ensures
        b("flush_all").len() == 9,
        b("flush_all")[0] == 102,
        b("flush_all")[1] == 108,
        b("flush_all")[2] == 117,
        b("flush_all")[3] == 115,
        b("flush_all")[4] == 104,
        b("flush_all")[5] == 95,
        b("flush_all")[6] == 97,
        b("flush_all")[7] == 108,
        b("flush_all")[8] == 108,
{
    broadcast use is_ascii_spec_bytes;

    reveal_strlit("flush_all");
    assert(is_ascii("flush_all"));
}

proof fn lemma_bytes_cache_memlimit_sp()
    ensures
        b("cache_memlimit ").len() == 15,
        b("cache_memlimit ")[0] == 99,
        b("cache_memlimit ")[1] == 97,
        b("cache_memlimit ")[2] == 99,
        b("cache_memlimit ")[3] == 104,
        b("cache_memlimit ")[4] == 101,
        b("cache_memlimit ")[5] == 95,
        b("cache_memlimit ")[6] == 109,
        b("cache_memlimit ")[7] == 101,
        b("cache_memlimit ")[8] == 109,
        b("cache_memlimit ")[9] == 108,
        b("cache_memlimit ")[10] == 105,
        b("cache_memlimit ")[11] == 109,
        b("cache_memlimit ")[12] == 105,
        b("cache_memlimit ")[13] == 116,
        b("cache_memlimit ")[14] == 32,
{
    broadcast use is_ascii_spec_bytes;

    reveal_strlit("cache_memlimit ");
    assert(is_ascii("cache_memlimit "));
}

proof fn lemma_bytes_slabs_sp_automove_sp()
    ensures
        b("slabs automove ").len() == 15,
        b("slabs automove ")[0] == 115,
        b("slabs automove ")[1] == 108,
        b("slabs automove ")[2] == 97,
        b("slabs automove ")[3] == 98,
        b("slabs automove ")[4] == 115,
        b("slabs automove ")[5] == 32,
        b("slabs automove ")[6] == 97,
        b("slabs automove ")[7] == 117,
        b("slabs automove ")[8] == 116,
        b("slabs automove ")[9] == 111,
        b("slabs automove ")[10] == 109,
        b("slabs automove ")[11] == 111,
        b("slabs automove ")[12] == 118,
        b("slabs automove ")[13] == 101,
        b("slabs automove ")[14] == 32,
{
    broadcast use is_ascii_spec_bytes;

    reveal_strlit("slabs automove ");
    assert(is_ascii("slabs automove "));
}

proof fn lemma_bytes_slabs_sp_reassign_sp()
    ensures
        b("slabs reassign ").len() == 15,
        b("slabs reassign ")[0] == 115,
        b("slabs reassign ")[1] == 108,
        b("slabs reassign ")[2] == 97,
        b("slabs reassign ")[3] == 98,
        b("slabs reassign ")[4] == 115,
        b("slabs reassign ")[5] == 32,
        b("slabs reassign ")[6] == 114,
        b("slabs reassign ")[7] == 101,
        b("slabs reassign ")[8] == 97,
        b("slabs reassign ")[9] == 115,
        b("slabs reassign ")[10] == 115,
        b("slabs reassign ")[11] == 105,
        b("slabs reassign ")[12] == 103,
        b("slabs reassign ")[13] == 110,
        b("slabs reassign ")[14] == 32,
{
    broadcast use is_ascii_spec_bytes;

    reveal_strlit("slabs reassign ");
    assert(is_ascii("slabs reassign "));
}

proof fn lemma_bytes_lru_crawler_sp_sleep_sp()
    ensures
        b("lru_crawler sleep ").len() == 18,
        b("lru_crawler sleep ")[0] == 108,
        b("lru_crawler sleep ")[1] == 114,
        b("lru_crawler sleep ")[2] == 117,
        b("lru_crawler sleep ")[3] == 95,
        b("lru_crawler sleep ")[4] == 99,
        b("lru_crawler sleep ")[5] == 114,
        b("lru_crawler sleep ")[6] == 97,
        b("lru_crawler sleep ")[7] == 119,
        b("lru_crawler sleep ")[8] == 108,
        b("lru_crawler sleep ")[9] == 101,
        b("lru_crawler sleep ")[10] == 114,
        b("lru_crawler sleep ")[11] == 32,
        b("lru_crawler sleep ")[12] == 115,
        b("lru_crawler sleep ")[13] == 108,
        b("lru_crawler sleep ")[14] == 101,
        b("lru_crawler sleep ")[15] == 101,
        b("lru_crawler sleep ")[16] == 112,
        b("lru_crawler sleep ")[17] == 32,
{
    broadcast use is_ascii_spec_bytes;

    reveal_strlit("lru_crawler sleep ");
    assert(is_ascii("lru_crawler sleep "));
}

proof fn lemma_bytes_lru_crawler_sp_crawl_sp()
    ensures
        b("lru_crawler crawl ").len() == 18,
        b("lru_crawler crawl ")[0] == 108,
        b("lru_crawler crawl ")[1] == 114,
        b("lru_crawler crawl ")[2] == 117,
        b("lru_crawler crawl ")[3] == 95,
        b("lru_crawler crawl ")[4] == 99,
        b("lru_crawler crawl ")[5] == 114,
        b("lru_crawler crawl ")[6] == 97,
        b("lru_crawler crawl ")[7] == 119,
        b("lru_crawler crawl ")[8] == 108,
        b("lru_crawler crawl ")[9] == 101,
        b("lru_crawler crawl ")[10] == 114,
        b("lru_crawler crawl ")[11] == 32,
        b("lru_crawler crawl ")[12] == 99,
        b("lru_crawler crawl ")[13] == 114,
        b("lru_crawler crawl ")[14] == 97,
        b("lru_crawler crawl ")[15] == 119,
        b("lru_crawler crawl ")[16] == 108,
        b("lru_crawler crawl ")[17] == 32,
{
    broadcast use is_ascii_spec_bytes;

    reveal_strlit("lru_crawler crawl ");
    assert(is_ascii("lru_crawler crawl "));
}

proof fn lemma_bytes_lru_crawler_sp_tocrawl_sp()
    ensures
        b("lru_crawler tocrawl ").len() == 20,
        b("lru_crawler tocrawl ")[0] == 108,
        b("lru_crawler tocrawl ")[1] == 114,
        b("lru_crawler tocrawl ")[2] == 117,
        b("lru_crawler tocrawl ")[3] == 95,
        b("lru_crawler tocrawl ")[4] == 99,
        b("lru_crawler tocrawl ")[5] == 114,
        b("lru_crawler tocrawl ")[6] == 97,
        b("lru_crawler tocrawl ")[7] == 119,
        b("lru_crawler tocrawl ")[8] == 108,
        b("lru_crawler tocrawl ")[9] == 101,
        b("lru_crawler tocrawl ")[10] == 114,
        b("lru_crawler tocrawl ")[11] == 32,
        b("lru_crawler tocrawl ")[12] == 116,
        b("lru_crawler tocrawl ")[13] == 111,
        b("lru_crawler tocrawl ")[14] == 99,
        b("lru_crawler tocrawl ")[15] == 114,
        b("lru_crawler tocrawl ")[16] == 97,
        b("lru_crawler tocrawl ")[17] == 119,
        b("lru_crawler tocrawl ")[18] == 108,
        b("lru_crawler tocrawl ")[19] == 32,
{
    broadcast use is_ascii_spec_bytes;

    reveal_strlit("lru_crawler tocrawl ");
    assert(is_ascii("lru_crawler tocrawl "));
}

proof fn lemma_bytes_lru_crawler_sp_enable_end()
    ensures
        b("lru_crawler enable\r\n").len() == 20,
        b("lru_crawler enable\r\n")[0] == 108,
        b("lru_crawler enable\r\n")[1] == 114,
        b("lru_crawler enable\r\n")[2] == 117,
        b("lru_crawler enable\r\n")[3] == 95,
        b("lru_crawler enable\r\n")[4] == 99,
        b("lru_crawler enable\r\n")[5] == 114,
        b("lru_crawler enable\r\n")[6] == 97,
        b("lru_crawler enable\r\n")[7] == 119,
        b("lru_crawler enable\r\n")[8] == 108,
        b("lru_crawler enable\r\n")[9] == 101,
        b("lru_crawler enable\r\n")[10] == 114,
        b("lru_crawler enable\r\n")[11] == 32,
        b("lru_crawler enable\r\n")[12] == 101,
        b("lru_crawler enable\r\n")[13] == 110,
        b("lru_crawler enable\r\n")[14] == 97,
        b("lru_crawler enable\r\n")[15] == 98,
        b("lru_crawler enable\r\n")[16] == 108,
        b("lru_crawler enable\r\n")[17] == 101,
        b("lru_crawler enable\r\n")[18] == 13,
        b("lru_crawler enable\r\n")[19] == 10,
{
    broadcast use is_ascii_spec_bytes;

    reveal_strlit("lru_crawler enable\r\n");
    assert(is_ascii("lru_crawler enable\r\n"));
}

proof fn lemma_bytes_lru_crawler_sp_disable_end()
    ensures
        b("lru_crawler disable\r\n").len() == 21,
        b("lru_crawler disable\r\n")[0] == 108,
        b("lru_crawler disable\r\n")[1] == 114,
        b("lru_crawler disable\r\n")[2] == 117,
        b("lru_crawler disable\r\n")[3] == 95,
        b("lru_crawler disable\r\n")[4] == 99,
        b("lru_crawler disable\r\n")[5] == 114,
        b("lru_crawler disable\r\n")[6] == 97,
        b("lru_crawler disable\r\n")[7] == 119,
        b("lru_crawler disable\r\n")[8] == 108,
        b("lru_crawler disable\r\n")[9] == 101,
        b("lru_crawler disable\r\n")[10] == 114,
        b("lru_crawler disable\r\n")[11] == 32,
        b("lru_crawler disable\r\n")[12] == 100,
        b("lru_crawler disable\r\n")[13] == 105,
        b("lru_crawler disable\r\n")[14] == 115,
        b("lru_crawler disable\r\n")[15] == 97,
        b("lru_crawler disable\r\n")[16] == 98,
        b("lru_crawler disable\r\n")[17] == 108,
        b("lru_crawler disable\r\n")[18] == 101,
        b("lru_crawler disable\r\n")[19] == 13,
        b("lru_crawler disable\r\n")[20] == 10,
{
    broadcast use is_ascii_spec_bytes;

    reveal_strlit("lru_crawler disable\r\n");
    assert(is_ascii("lru_crawler disable\r\n"));
}

proof fn lemma_bytes_mn_end()
    ensures
        b("mn\r\n").len() == 4,
        b("mn\r\n")[0] == 109,
        b("mn\r\n")[1] == 110,
        b("mn\r\n")[2] == 13,
        b("mn\r\n")[3] == 10,
{
    broadcast use is_ascii_spec_bytes;

    reveal_strlit("mn\r\n");
    assert(is_ascii("mn\r\n"));
}

proof fn lemma_bytes_stats()
    ensures
        b("stats").len() == 5,
        b("stats")[0] == 115,
        b("stats")[1] == 116,
        b("stats")[2] == 97,
        b("stats")[3] == 116,
        b("stats")[4] == 115,
{
    broadcast use is_ascii_spec_bytes;

    reveal_strlit("stats");
    assert(is_ascii("stats"));
}

proof fn lemma_bytes_lru_crawler_sp_metadump_sp()
    ensures
        b("lru_crawler metadump ").len() == 21,
        b("lru_crawler metadump ")[0] == 108,
        b("lru_crawler metadump ")[1] == 114,
        b("lru_crawler metadump ")[2] == 117,
        b("lru_crawler metadump ")[3] == 95,
        b("lru_crawler metadump ")[4] == 99,
        b("lru_crawler metadump ")[5] == 114,
        b("lru_crawler metadump ")[6] == 97,
        b("lru_crawler metadump ")[7] == 119,
        b("lru_crawler metadump ")[8] == 108,
        b("lru_crawler metadump ")[9] == 101,
        b("lru_crawler metadump ")[10] == 114,
        b("lru_crawler metadump ")[11] == 32,
        b("lru_crawler metadump ")[12] == 109,
        b("lru_crawler metadump ")[13] == 101,
        b("lru_crawler metadump ")[14] == 116,
        b("lru_crawler metadump ")[15] == 97,
        b("lru_crawler metadump ")[16] == 100,
        b("lru_crawler metadump ")[17] == 117,
        b("lru_crawler metadump ")[18] == 109,
        b("lru_crawler metadump ")[19] == 112,
        b("lru_crawler metadump ")[20] == 32,
{
    broadcast use is_ascii_spec_bytes;

    reveal_strlit("lru_crawler metadump ");
    assert(is_ascii("lru_crawler metadump "));
}

proof fn lemma_bytes_lru_crawler_sp_mgdump_sp()
    ensures
        b("lru_crawler mgdump ").len() == 19,
        b("lru_crawler mgdump ")[0] == 108,
        b("lru_crawler mgdump ")[1] == 114,
        b("lru_crawler mgdump ")[2] == 117,
        b("lru_crawler mgdump ")[3] == 95,
        b("lru_crawler mgdump ")[4] == 99,
        b("lru_crawler mgdump ")[5] == 114,
        b("lru_crawler mgdump ")[6] == 97,
        b("lru_crawler mgdump ")[7] == 119,
        b("lru_crawler mgdump ")[8] == 108,
        b("lru_crawler mgdump ")[9] == 101,
        b("lru_crawler mgdump ")[10] == 114,
        b("lru_crawler mgdump ")[11] == 32,
        b("lru_crawler mgdump ")[12] == 109,
        b("lru_crawler mgdump ")[13] == 103,
        b("lru_crawler mgdump ")[14] == 100,
        b("lru_crawler mgdump ")[15] == 117,
        b("lru_crawler mgdump ")[16] == 109,
        b("lru_crawler mgdump ")[17] == 112,
        b("lru_crawler mgdump ")[18] == 32,
{
    broadcast use is_ascii_spec_bytes;

    reveal_strlit("lru_crawler mgdump ");
    assert(is_ascii("lru_crawler mgdump "));
}

proof fn lemma_bytes_mg_sp()
    ensures
        b("mg ").len() == 3,
        b("mg ")[0] == 109,
        b("mg ")[1] == 103,
        b("mg ")[2] == 32,
{
    broadcast use is_ascii_spec_bytes;

    reveal_strlit("mg ");
    assert(is_ascii("mg "));
}

proof fn lemma_bytes_ms_sp()
    ensures
        b("ms ").len() == 3,
        b("ms ")[0] == 109,
        b("ms ")[1] == 115,
        b("ms ")[2] == 32,
{
    broadcast use is_ascii_spec_bytes;

    reveal_strlit("ms ");
    assert(is_ascii("ms "));
}

proof fn lemma_bytes_md_sp()
    ensures
        b("md ").len() == 3,
        b("md ")[0] == 109,
        b("md ")[1] == 100,
        b("md ")[2] == 32,
{
    broadcast use is_ascii_spec_bytes;

    reveal_strlit("md ");
    assert(is_ascii("md "));
}

proof fn lemma_bytes_ma_sp()
    ensures
        b("ma ").len() == 3,
        b("ma ")[0] == 109,
        b("ma ")[1] == 97,
        b("ma ")[2] == 32,
{
    broadcast use is_ascii_spec_bytes;

    reveal_strlit("ma ");
    assert(is_ascii("ma "));
}

proof fn lemma_bytes_lru_sp()
    ensures
        b("lru ").len() == 4,
        b("lru ")[0] == 108,
        b("lru ")[1] == 114,
        b("lru ")[2] == 117,
        b("lru ")[3] == 32,
{
    broadcast use is_ascii_spec_bytes;

    reveal_strlit("lru ");
    assert(is_ascii("lru "));
}

proof fn lemma_bytes_me_sp()
    ensures
        b("me ").len() == 3,
        b("me ")[0] == 109,
        b("me ")[1] == 101,
        b("me ")[2] == 32,
{
    broadcast use is_ascii_spec_bytes;

    reveal_strlit("me ");
    assert(is_ascii("me "));
}

proof fn lemma_bytes_shutdown_sp_graceful_end()
    ensures
        b("shutdown graceful\r\n").len() == 19,
        b("shutdown graceful\r\n")[0] == 115,
        b("shutdown graceful\r\n")[1] == 104,
        b("shutdown graceful\r\n")[2] == 117,
        b("shutdown graceful\r\n")[3] == 116,
        b("shutdown graceful\r\n")[4] == 100,
        b("shutdown graceful\r\n")[5] == 111,
        b("shutdown graceful\r\n")[6] == 119,
        b("shutdown graceful\r\n")[7] == 110,
        b("shutdown graceful\r\n")[8] == 32,
        b("shutdown graceful\r\n")[9] == 103,
        b("shutdown graceful\r\n")[10] == 114,
        b("shutdown graceful\r\n")[11] == 97,
        b("shutdown graceful\r\n")[12] == 99,
        b("shutdown graceful\r\n")[13] == 101,
        b("shutdown graceful\r\n")[14] == 102,
        b("shutdown graceful\r\n")[15] == 117,
        b("shutdown graceful\r\n")[16] == 108,
        b("shutdown graceful\r\n")[17] == 13,
        b("shutdown graceful\r\n")[18] == 10,
{
    broadcast use is_ascii_spec_bytes;

    reveal_strlit("shutdown graceful\r\n");
    assert(is_ascii("shutdown graceful\r\n"));
}

proof fn lemma_bytes_shutdown_end()
    ensures
        b("shutdown\r\n").len() == 10,
        b("shutdown\r\n")[0] == 115,
        b("shutdown\r\n")[1] == 104,
        b("shutdown\r\n")[2] == 117,
        b("shutdown\r\n")[3] == 116,
        b("shutdown\r\n")[4] == 100,
        b("shutdown\r\n")[5] == 111,
        b("shutdown\r\n")[6] == 119,
        b("shutdown\r\n")[7] == 110,
        b("shutdown\r\n")[8] == 13,
        b("shutdown\r\n")[9] == 10,
{
    broadcast use is_ascii_spec_bytes;

    reveal_strlit("shutdown\r\n");
    assert(is_ascii("shutdown\r\n"));
}

proof fn lemma_bytes_stats_sp_settings_end()
    ensures
        b("stats settings\r\n").len() == 16,
        b("stats settings\r\n")[0] == 115,
        b("stats settings\r\n")[1] == 116,
        b("stats settings\r\n")[2] == 97,
        b("stats settings\r\n")[3] == 116,
        b("stats settings\r\n")[4] == 115,
        b("stats settings\r\n")[5] == 32,
        b("stats settings\r\n")[6] == 115,
        b("stats settings\r\n")[7] == 101,
        b("stats settings\r\n")[8] == 116,
        b("stats settings\r\n")[9] == 116,
        b("stats settings\r\n")[10] == 105,
        b("stats settings\r\n")[11] == 110,
        b("stats settings\r\n")[12] == 103,
        b("stats settings\r\n")[13] == 115,
        b("stats settings\r\n")[14] == 13,
        b("stats settings\r\n")[15] == 10,
{
    broadcast use is_ascii_spec_bytes;

    reveal_strlit("stats settings\r\n");
    assert(is_ascii("stats settings\r\n"));
}

proof fn lemma_bytes_stats_sp_items_end()
    ensures
        b("stats items\r\n").len() == 13,
        b("stats items\r\n")[0] == 115,
        b("stats items\r\n")[1] == 116,
        b("stats items\r\n")[2] == 97,
        b("stats items\r\n")[3] == 116,
        b("stats items\r\n")[4] == 115,
        b("stats items\r\n")[5] == 32,
        b("stats items\r\n")[6] == 105,
        b("stats items\r\n")[7] == 116,
        b("stats items\r\n")[8] == 101,
        b("stats items\r\n")[9] == 109,
        b("stats items\r\n")[10] == 115,
        b("stats items\r\n")[11] == 13,
        b("stats items\r\n")[12] == 10,
{
    broadcast use is_ascii_spec_bytes;

    reveal_strlit("stats items\r\n");
    assert(is_ascii("stats items\r\n"));
}

proof fn lemma_bytes_stats_sp_sizes_end()
    ensures
        b("stats sizes\r\n").len() == 13,
        b("stats sizes\r\n")[0] == 115,
        b("stats sizes\r\n")[1] == 116,
        b("stats sizes\r\n")[2] == 97,
        b("stats sizes\r\n")[3] == 116,
        b("stats sizes\r\n")[4] == 115,
        b("stats sizes\r\n")[5] == 32,
        b("stats sizes\r\n")[6] == 115,
        b("stats sizes\r\n")[7] == 105,
        b("stats sizes\r\n")[8] == 122,
        b("stats sizes\r\n")[9] == 101,
        b("stats sizes\r\n")[10] == 115,
        b("stats sizes\r\n")[11] == 13,
        b("stats sizes\r\n")[12] == 10,
{
    broadcast use is_ascii_spec_bytes;

    reveal_strlit("stats sizes\r\n");
    assert(is_ascii("stats sizes\r\n"));
}

proof fn lemma_bytes_stats_sp_slabs_end()
    ensures
        b("stats slabs\r\n").len() == 13,
        b("stats slabs\r\n")[0] == 115,
        b("stats slabs\r\n")[1] == 116,
        b("stats slabs\r\n")[2] == 97,
        b("stats slabs\r\n")[3] == 116,
        b("stats slabs\r\n")[4] == 115,
        b("stats slabs\r\n")[5] == 32,
        b("stats slabs\r\n")[6] == 115,
        b("stats slabs\r\n")[7] == 108,
        b("stats slabs\r\n")[8] == 97,
        b("stats slabs\r\n")[9] == 98,
        b("stats slabs\r\n")[10] == 115,
        b("stats slabs\r\n")[11] == 13,
        b("stats slabs\r\n")[12] == 10,
{
    broadcast use is_ascii_spec_bytes;

    reveal_strlit("stats slabs\r\n");
    assert(is_ascii("stats slabs\r\n"));
}

proof fn lemma_bytes_stats_sp_conns_end()
    ensures
        b("stats conns\r\n").len() == 13,
        b("stats conns\r\n")[0] == 115,
        b("stats conns\r\n")[1] == 116,
        b("stats conns\r\n")[2] == 97,
        b("stats conns\r\n")[3] == 116,
        b("stats conns\r\n")[4] == 115,
        b("stats conns\r\n")[5] == 32,
        b("stats conns\r\n")[6] == 99,
        b("stats conns\r\n")[7] == 111,
        b("stats conns\r\n")[8] == 110,
        b("stats conns\r\n")[9] == 110,
        b("stats conns\r\n")[10] == 115,
        b("stats conns\r\n")[11] == 13,
        b("stats conns\r\n")[12] == 10,
{
    broadcast use is_ascii_spec_bytes;

    reveal_strlit("stats conns\r\n");
    assert(is_ascii("stats conns\r\n"));
}

proof fn lemma_bytes_stats_end()
    ensures
        b("stats\r\n").len() == 7,
        b("stats\r\n")[0] == 115,
        b("stats\r\n")[1] == 116,
        b("stats\r\n")[2] == 97,
        b("stats\r\n")[3] == 116,
        b("stats\r\n")[4] == 115,
        b("stats\r\n")[5] == 13,
        b("stats\r\n")[6] == 10,
{
    broadcast use is_ascii_spec_bytes;

    reveal_strlit("stats\r\n");
    assert(is_ascii("stats\r\n"));
}

proof fn lemma_bytes_slabs_sp_automove_sp_0_end()
    ensures
        b("slabs automove 0\r\n").len() == 18,
        b("slabs automove 0\r\n")[0] == 115,
        b("slabs automove 0\r\n")[1] == 108,
        b("slabs automove 0\r\n")[2] == 97,
        b("slabs automove 0\r\n")[3] == 98,
        b("slabs automove 0\r\n")[4] == 115,
        b("slabs automove 0\r\n")[5] == 32,
        b("slabs automove 0\r\n")[6] == 97,
        b("slabs automove 0\r\n")[7] == 117,
        b("slabs automove 0\r\n")[8] == 116,
        b("slabs automove 0\r\n")[9] == 111,
        b("slabs automove 0\r\n")[10] == 109,
        b("slabs automove 0\r\n")[11] == 111,
        b("slabs automove 0\r\n")[12] == 118,
        b("slabs automove 0\r\n")[13] == 101,
        b("slabs automove 0\r\n")[14] == 32,
        b("slabs automove 0\r\n")[15] == 48,
        b("slabs automove 0\r\n")[16] == 13,
        b("slabs automove 0\r\n")[17] == 10,
{
    broadcast use is_ascii_spec_bytes;

    reveal_strlit("slabs automove 0\r\n");
    assert(is_ascii("slabs automove 0\r\n"));
}

proof fn lemma_bytes_slabs_sp_automove_sp_1_end()
    ensures
        b("slabs automove 1\r\n").len() == 18,
        b("slabs automove 1\r\n")[0] == 115,
        b("slabs automove 1\r\n")[1] == 108,
        b("slabs automove 1\r\n")[2] == 97,
        b("slabs automove 1\r\n")[3] == 98,
        b("slabs automove 1\r\n")[4] == 115,
        b("slabs automove 1\r\n")[5] == 32,
        b("slabs automove 1\r\n")[6] == 97,
        b("slabs automove 1\r\n")[7] == 117,
        b("slabs automove 1\r\n")[8] == 116,
        b("slabs automove 1\r\n")[9] == 111,
        b("slabs automove 1\r\n")[10] == 109,
        b("slabs automove 1\r\n")[11] == 111,
        b("slabs automove 1\r\n")[12] == 118,
        b("slabs automove 1\r\n")[13] == 101,
        b("slabs automove 1\r\n")[14] == 32,
        b("slabs automove 1\r\n")[15] == 49,
        b("slabs automove 1\r\n")[16] == 13,
        b("slabs automove 1\r\n")[17] == 10,
{
    broadcast use is_ascii_spec_bytes;

    reveal_strlit("slabs automove 1\r\n");
    assert(is_ascii("slabs automove 1\r\n"));
}

proof fn lemma_bytes_slabs_sp_automove_sp_2_end()
    ensures
        b("slabs automove 2\r\n").len() == 18,
        b("slabs automove 2\r\n")[0] == 115,
        b("slabs automove 2\r\n")[1] == 108,
        b("slabs automove 2\r\n")[2] == 97,
        b("slabs automove 2\r\n")[3] == 98,
        b("slabs automove 2\r\n")[4] == 115,
        b("slabs automove 2\r\n")[5] == 32,
        b("slabs automove 2\r\n")[6] == 97,
        b("slabs automove 2\r\n")[7] == 117,
        b("slabs automove 2\r\n")[8] == 116,
        b("slabs automove 2\r\n")[9] == 111,
        b("slabs automove 2\r\n")[10] == 109,
        b("slabs automove 2\r\n")[11] == 111,
        b("slabs automove 2\r\n")[12] == 118,
        b("slabs automove 2\r\n")[13] == 101,
        b("slabs automove 2\r\n")[14] == 32,
        b("slabs automove 2\r\n")[15] == 50,
        b("slabs automove 2\r\n")[16] == 13,
        b("slabs automove 2\r\n")[17] == 10,
{
    broadcast use is_ascii_spec_bytes;

    reveal_strlit("slabs automove 2\r\n");
    assert(is_ascii("slabs automove 2\r\n"));
}

proof fn lemma_bytes_incr()
    ensures
        b("incr").len() == 4,
        b("incr")[0] == 105,
        b("incr")[1] == 110,
        b("incr")[2] == 99,
        b("incr")[3] == 114,
{
    broadcast use is_ascii_spec_bytes;

    reveal_strlit("incr");
    assert(is_ascii("incr"));
}

proof fn lemma_bytes_decr()
    ensures
        b("decr").len() == 4,
        b("decr")[0] == 100,
        b("decr")[1] == 101,
        b("decr")[2] == 99,
        b("decr")[3] == 114,
{
    broadcast use is_ascii_spec_bytes;

    reveal_strlit("decr");
    assert(is_ascii("decr"));
}

proof fn lemma_bytes_mg()
    ensures
        b("mg").len() == 2,
        b("mg")[0] == 109,
        b("mg")[1] == 103,
{
    broadcast use is_ascii_spec_bytes;

    reveal_strlit("mg");
    assert(is_ascii("mg"));
}

proof fn lemma_bytes_ms()
    ensures
        b("ms").len() == 2,
        b("ms")[0] == 109,
        b("ms")[1] == 115,
{
    broadcast use is_ascii_spec_bytes;

    reveal_strlit("ms");
    assert(is_ascii("ms"));
}

proof fn lemma_bytes_md()
    ensures
        b("md").len() == 2,
        b("md")[0] == 109,
        b("md")[1] == 100,
{
    broadcast use is_ascii_spec_bytes;

    reveal_strlit("md");
    assert(is_ascii("md"));
}

proof fn lemma_bytes_ma()
    ensures
        b("ma").len() == 2,
        b("ma")[0] == 109,
        b("ma")[1] == 97,
{
    broadcast use is_ascii_spec_bytes;

    reveal_strlit("ma");
    assert(is_ascii("ma"));
}

proof fn lemma_bytes_lru_sp_tune_sp()
    ensures
        b("lru tune ").len() == 9,
        b("lru tune ")[0] == 108,
        b("lru tune ")[1] == 114,
        b("lru tune ")[2] == 117,
        b("lru tune ")[3] == 32,
        b("lru tune ")[4] == 116,
        b("lru tune ")[5] == 117,
        b("lru tune ")[6] == 110,
        b("lru tune ")[7] == 101,
        b("lru tune ")[8] == 32,
{
    broadcast use is_ascii_spec_bytes;

    reveal_strlit("lru tune ");
    assert(is_ascii("lru tune "));
}

proof fn lemma_bytes_lru_sp_mode_sp_flat_end()
    ensures
        b("lru mode flat\r\n").len() == 15,
        b("lru mode flat\r\n")[0] == 108,
        b("lru mode flat\r\n")[1] == 114,
        b("lru mode flat\r\n")[2] == 117,
        b("lru mode flat\r\n")[3] == 32,
        b("lru mode flat\r\n")[4] == 109,
        b("lru mode flat\r\n")[5] == 111,
        b("lru mode flat\r\n")[6] == 100,
        b("lru mode flat\r\n")[7] == 101,
        b("lru mode flat\r\n")[8] == 32,
        b("lru mode flat\r\n")[9] == 102,
        b("lru mode flat\r\n")[10] == 108,
        b("lru mode flat\r\n")[11] == 97,
        b("lru mode flat\r\n")[12] == 116,
        b("lru mode flat\r\n")[13] == 13,
        b("lru mode flat\r\n")[14] == 10,
{
    broadcast use is_ascii_spec_bytes;

    reveal_strlit("lru mode flat\r\n");
    assert(is_ascii("lru mode flat\r\n"));
}

proof fn lemma_bytes_lru_sp_mode_sp_segmented_end()
    ensures
        b("lru mode segmented\r\n").len() == 20,
        b("lru mode segmented\r\n")[0] == 108,
        b("lru mode segmented\r\n")[1] == 114,
        b("lru mode segmented\r\n")[2] == 117,
        b("lru mode segmented\r\n")[3] == 32,
        b("lru mode segmented\r\n")[4] == 109,
        b("lru mode segmented\r\n")[5] == 111,
        b("lru mode segmented\r\n")[6] == 100,
        b("lru mode segmented\r\n")[7] == 101,
        b("lru mode segmented\r\n")[8] == 32,
        b("lru mode segmented\r\n")[9] == 115,
        b("lru mode segmented\r\n")[10] == 101,
        b("lru mode segmented\r\n")[11] == 103,
        b("lru mode segmented\r\n")[12] == 109,
        b("lru mode segmented\r\n")[13] == 101,
        b("lru mode segmented\r\n")[14] == 110,
        b("lru mode segmented\r\n")[15] == 116,
        b("lru mode segmented\r\n")[16] == 101,
        b("lru mode segmented\r\n")[17] == 100,
        b("lru mode segmented\r\n")[18] == 13,
        b("lru mode segmented\r\n")[19] == 10,
{
    broadcast use is_ascii_spec_bytes;

    reveal_strlit("lru mode segmented\r\n");
    assert(is_ascii("lru mode segmented\r\n"));
}

proof fn lemma_bytes_lru_sp_temp_ttl_sp()
    ensures
        b("lru temp_ttl ").len() == 13,
        b("lru temp_ttl ")[0] == 108,
        b("lru temp_ttl ")[1] == 114,
        b("lru temp_ttl ")[2] == 117,
        b("lru temp_ttl ")[3] == 32,
        b("lru temp_ttl ")[4] == 116,
        b("lru temp_ttl ")[5] == 101,
        b("lru temp_ttl ")[6] == 109,
        b("lru temp_ttl ")[7] == 112,
        b("lru temp_ttl ")[8] == 95,
        b("lru temp_ttl ")[9] == 116,
        b("lru temp_ttl ")[10] == 116,
        b("lru temp_ttl ")[11] == 108,
        b("lru temp_ttl ")[12] == 32,
{
    broadcast use is_ascii_spec_bytes;

    reveal_strlit("lru temp_ttl ");
    assert(is_ascii("lru temp_ttl "));
}

proof fn lemma_bytes_set()
    ensures
        b("set").len() == 3,
        b("set")[0] == 115,
        b("set")[1] == 101,
        b("set")[2] == 116,
{
    broadcast use is_ascii_spec_bytes;

    reveal_strlit("set");
    assert(is_ascii("set"));
}

proof fn lemma_bytes_add()
    ensures
        b("add").len() == 3,
        b("add")[0] == 97,
        b("add")[1] == 100,
        b("add")[2] == 100,
{
    broadcast use is_ascii_spec_bytes;

    reveal_strlit("add");
    assert(is_ascii("add"));
}

proof fn lemma_bytes_replace()
    ensures
        b("replace").len() == 7,
        b("replace")[0] == 114,
        b("replace")[1] == 101,
        b("replace")[2] == 112,
        b("replace")[3] == 108,
        b("replace")[4] == 97,
        b("replace")[5] == 99,
        b("replace")[6] == 101,
{
    broadcast use is_ascii_spec_bytes;

    reveal_strlit("replace");
    assert(is_ascii("replace"));
}

proof fn lemma_bytes_append()
    ensures
        b("append").len() == 6,
        b("append")[0] == 97,
        b("append")[1] == 112,
        b("append")[2] == 112,
        b("append")[3] == 101,
        b("append")[4] == 110,
        b("append")[5] == 100,
{
    broadcast use is_ascii_spec_bytes;

    reveal_strlit("append");
    assert(is_ascii("append"));
}

proof fn lemma_bytes_prepend()
    ensures
        b("prepend").len() == 7,
        b("prepend")[0] == 112,
        b("prepend")[1] == 114,
        b("prepend")[2] == 101,
        b("prepend")[3] == 112,
        b("prepend")[4] == 101,
        b("prepend")[5] == 110,
        b("prepend")[6] == 100,
{
    broadcast use is_ascii_spec_bytes;

    reveal_strlit("prepend");
    assert(is_ascii("prepend"));
}

proof fn lemma_bytes_cas()
    ensures
        b("cas").len() == 3,
        b("cas")[0] == 99,
        b("cas")[1] == 97,
        b("cas")[2] == 115,
{
    broadcast use is_ascii_spec_bytes;

    reveal_strlit("cas");
    assert(is_ascii("cas"));
}

proof fn lemma_bytes_get()
    ensures
        b("get").len() == 3,
        b("get")[0] == 103,
        b("get")[1] == 101,
        b("get")[2] == 116,
{
    broadcast use is_ascii_spec_bytes;

    reveal_strlit("get");
    assert(is_ascii("get"));
}

proof fn lemma_bytes_gets()
    ensures
        b("gets").len() == 4,
        b("gets")[0] == 103,
        b("gets")[1] == 101,
        b("gets")[2] == 116,
        b("gets")[3] == 115,
{
    broadcast use is_ascii_spec_bytes;

    reveal_strlit("gets");
    assert(is_ascii("gets"));
}

proof fn lemma_bytes_gat()
    ensures
        b("gat").len() == 3,
        b("gat")[0] == 103,
        b("gat")[1] == 97,
        b("gat")[2] == 116,
{
    broadcast use is_ascii_spec_bytes;

    reveal_strlit("gat");
    assert(is_ascii("gat"));
}

proof fn lemma_bytes_gats()
    ensures
        b("gats").len() == 4,
        b("gats")[0] == 103,
        b("gats")[1] == 97,
        b("gats")[2] == 116,
        b("gats")[3] == 115,
{
    broadcast use is_ascii_spec_bytes;

    reveal_strlit("gats");
    assert(is_ascii("gats"));
}

} // verus!
