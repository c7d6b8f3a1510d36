//! What holds of the codec as a whole.

use crate::commands::storage_exchange;
use crate::decode::delete_reply;
use crate::decode::distinct_keys;
use crate::decode::incr_decr_reply;
use crate::decode::key_index;
use crate::decode::ok_reply;
use crate::decode::put;
use crate::decode::retrieval_from;
use crate::decode::stat_line;
use crate::decode::stats_from;
use crate::decode::stats_reply;
use crate::decode::storage_line;
use crate::decode::storage_reply;
use crate::decode::touch_reply;
use crate::decode::value_header;
use crate::encode::cache_memlimit_request;
use crate::encode::delete_request;
use crate::encode::flush_all_request;
use crate::encode::incr_decr_request;
use crate::encode::storage_request;
use crate::encode::touch_request;
use crate::meta::ma_flag;
use crate::meta::ma_flags;
use crate::meta::ma_reply;
use crate::meta::ma_status;
use crate::meta::md_flag;
use crate::meta::md_flags;
use crate::meta::md_reply;
use crate::meta::md_status;
use crate::meta::mg_flag;
use crate::meta::mg_flags;
use crate::meta::mg_reply;
use crate::meta::mg_status;
use crate::meta::ms_flag;
use crate::meta::ms_flags;
use crate::meta::ms_reply;
use crate::meta::ms_status;
use crate::model::Fault;
use crate::pipeline::response;
use crate::pipeline::responses;
use crate::pipeline::responses_from;
use crate::pipeline::shape_of;
use crate::pipeline::shaped_response;
use crate::shard::crc32;
use crate::shard::shard_of;
use crate::stream::lemma_read_block_takes;
use crate::stream::lemma_read_line_takes;
use crate::stream::Wire;
use crate::text::b;
use crate::text::chomp;
use crate::text::dec;
use crate::text::dec_int;
use crate::text::has_crlf;
use crate::text::split;
use crate::text::SP;
use crate::types::ItemModel;
use crate::types::MaModel;
use crate::types::MdModel;
use crate::types::MgModel;
use crate::types::MsModel;
use crate::types::Reply;
use vstd::prelude::*;
use vstd::string::is_ascii;
use vstd::string::is_ascii_spec_bytes;

verus! {

/// What the four status lines of a storage command are, byte for byte.
proof fn lemma_status_lines()
    ensures
        b("STORED\r\n") =~= seq![83u8, 84, 79, 82, 69, 68, 13, 10],
        b("NOT_STORED\r\n") =~= seq![78u8, 79, 84, 95, 83, 84, 79, 82, 69, 68, 13, 10],
        b("EXISTS\r\n") =~= seq![69u8, 88, 73, 83, 84, 83, 13, 10],
        b("NOT_FOUND\r\n") =~= seq![78u8, 79, 84, 95, 70, 79, 85, 78, 68, 13, 10],
{
    broadcast use is_ascii_spec_bytes;

    reveal_strlit("STORED\r\n");
    reveal_strlit("NOT_STORED\r\n");
    reveal_strlit("EXISTS\r\n");
    reveal_strlit("NOT_FOUND\r\n");
    assert(is_ascii("STORED\r\n"));
    assert(is_ascii("NOT_STORED\r\n"));
    assert(is_ascii("EXISTS\r\n"));
    assert(is_ascii("NOT_FOUND\r\n"));
}

/// The status of a storage command is `true` for the line `STORED` and for
/// no other, `false` for the lines `NOT_STORED`, `EXISTS` and `NOT_FOUND`
/// and for no other, and for every other line an error that carries the
/// line.
pub proof fn law_storage_status(line: Seq<u8>)
    ensures
        storage_line(line) == Ok::<bool, Fault>(true) <==> line == b("STORED\r\n"),
        storage_line(line) == Ok::<bool, Fault>(false) <==> (line == b("NOT_STORED\r\n") || line
            == b("EXISTS\r\n") || line == b("NOT_FOUND\r\n")),
        storage_line(line) is Err <==> !(line == b("STORED\r\n") || line == b("NOT_STORED\r\n")
            || line == b("EXISTS\r\n") || line == b("NOT_FOUND\r\n")),
        storage_line(line) is Err ==> storage_line(line) == Err::<bool, Fault>(
            Fault::Protocol(line),
        ),
{
    lemma_status_lines();
    assert(b("STORED\r\n")[0] != b("NOT_STORED\r\n")[0]);
    assert(b("STORED\r\n")[0] != b("EXISTS\r\n")[0]);
    assert(b("STORED\r\n")[0] != b("NOT_FOUND\r\n")[0]);
}

/// Whatever the verb, the key and the data of a storage command that asks
/// for a reply: what comes back is the status of the first line behind the
/// command, and the stream stands behind that line.
pub proof fn law_storage_round_trip(
    w: Wire,
    name: Seq<u8>,
    key: Seq<u8>,
    flags: u32,
    exptime: i64,
    cas_unique: Option<u64>,
    data: Seq<u8>,
)
    ensures
        ({
            let sent = w.write_all(
                storage_request(name, key, flags, exptime, cas_unique, false, data),
            );
            let (got, after) = storage_exchange(
                w,
                name,
                key,
                flags,
                exptime,
                cas_unique,
                false,
                data,
            );
            &&& after == sent.read_line().1
            &&& match sent.read_line().0 {
                Ok(line) => got == storage_line(line),
                Err(f) => got == Err::<bool, Fault>(f),
            }
        }),
{
}

/// A command with a token put in before its last `tail` bytes.
pub open spec fn with_token(plain: Seq<u8>, token: Seq<u8>, tail: Seq<u8>) -> Seq<u8> {
    plain.take(plain.len() - tail.len()) + token + tail
}

/// A command that asks for silence is the command that asks for a reply,
/// with the token `noreply` and one space before it put in at the end of
/// its first line. This holds of every storage command, of `delete`, `incr`,
/// `decr`, `touch`, `flush_all` and `cache_memlimit`.
pub proof fn law_noreply_token(
    name: Seq<u8>,
    key: Seq<u8>,
    flags: u32,
    exptime: i64,
    cas_unique: Option<u64>,
    data: Seq<u8>,
    value: u64,
    limit: usize,
    delay: Option<i64>,
)
    ensures
        ({
            let plain = storage_request(name, key, flags, exptime, cas_unique, false, data);
            let tail = b("\r\n") + data + b("\r\n");
            tail.is_suffix_of(plain) && storage_request(
                name,
                key,
                flags,
                exptime,
                cas_unique,
                true,
                data,
            ) == with_token(plain, b(" noreply"), tail)
        }),
        b("\r\n").is_suffix_of(delete_request(key, false)),
        delete_request(key, true) == with_token(
            delete_request(key, false),
            b(" noreply"),
            b("\r\n"),
        ),
        b("\r\n").is_suffix_of(incr_decr_request(name, key, value, false)),
        incr_decr_request(name, key, value, true) == with_token(
            incr_decr_request(name, key, value, false),
            b(" noreply"),
            b("\r\n"),
        ),
        b("\r\n").is_suffix_of(touch_request(key, exptime, false)),
        touch_request(key, exptime, true) == with_token(
            touch_request(key, exptime, false),
            b(" noreply"),
            b("\r\n"),
        ),
        b("\r\n").is_suffix_of(flush_all_request(delay, false)),
        flush_all_request(delay, true) == with_token(
            flush_all_request(delay, false),
            b(" noreply"),
            b("\r\n"),
        ),
        b("\r\n").is_suffix_of(cache_memlimit_request(limit, false)),
        cache_memlimit_request(limit, true) == with_token(
            cache_memlimit_request(limit, false),
            b(" noreply"),
            b("\r\n"),
        ),
{
    let end = b("\r\n");
    let token = b(" noreply");
    let storage_head = name + b(" ") + key + b(" ") + dec(flags as nat) + b(" ") + dec_int(
        exptime as int,
    ) + b(" ") + dec(data.len()) + (match cas_unique {
        Some(c) => b(" ") + dec(c as nat),
        None => Seq::empty(),
    });
    let tail = end + data + end;
    lemma_with_token(
        storage_head,
        token,
        tail,
        storage_request(name, key, flags, exptime, cas_unique, false, data),
        storage_request(name, key, flags, exptime, cas_unique, true, data),
    );
    lemma_with_token(
        b("delete ") + key,
        token,
        end,
        delete_request(key, false),
        delete_request(key, true),
    );
    lemma_with_token(
        name + b(" ") + key + b(" ") + dec(value as nat),
        token,
        end,
        incr_decr_request(name, key, value, false),
        incr_decr_request(name, key, value, true),
    );
    lemma_with_token(
        b("touch ") + key + b(" ") + dec_int(exptime as int),
        token,
        end,
        touch_request(key, exptime, false),
        touch_request(key, exptime, true),
    );
    lemma_with_token(
        b("flush_all") + (match delay {
            Some(x) => b(" ") + dec_int(x as int),
            None => Seq::empty(),
        }),
        token,
        end,
        flush_all_request(delay, false),
        flush_all_request(delay, true),
    );
    lemma_with_token(
        b("cache_memlimit ") + dec(limit as nat),
        token,
        end,
        cache_memlimit_request(limit, false),
        cache_memlimit_request(limit, true),
    );
}

proof fn lemma_with_token(
    head: Seq<u8>,
    token: Seq<u8>,
    tail: Seq<u8>,
    plain: Seq<u8>,
    silent: Seq<u8>,
)
    requires
        plain =~= head + tail,
        silent =~= head + token + tail,
    ensures
        tail.is_suffix_of(plain),
        silent == with_token(plain, token, tail),
{
    assert(plain.subrange(plain.len() - tail.len(), plain.len() as int) =~= tail);
    assert(plain.take(plain.len() - tail.len()) =~= head);
}

/// A reply that was not asked for is not read: the stream stays as it is,
/// not a byte is taken off it, and the command counts as done.
pub proof fn law_noreply_reads_nothing(w: Wire)
    ensures
        storage_reply(w, true) == (Ok::<bool, Fault>(true), w),
        delete_reply(w, true) == (Ok::<bool, Fault>(true), w),
        incr_decr_reply(w, true) == (Ok::<Option<u64>, Fault>(None), w),
        touch_reply(w, true) == (Ok::<bool, Fault>(true), w),
        ok_reply(w, true) == (Ok::<(), Fault>(()), w),
{
}

/// The connection of a key is the CRC32 of the key modulo the number of
/// connections: it is one of the connections, and it depends on nothing but
/// the bytes of the key and that number.
pub proof fn law_route_stable(key: Seq<u8>, again: Seq<u8>, size: nat)
    requires
        size > 0,
    ensures
        shard_of(key, size) == (crc32(key) as int) % (size as int),
        0 <= shard_of(key, size) < size,
        again == key ==> shard_of(again, size) == shard_of(key, size),
{
}

proof fn lemma_key_index_bounds(acc: Seq<(Seq<char>, Seq<char>)>, k: Seq<char>)
    ensures
        0 <= key_index(acc, k) <= acc.len(),
        forall|j: int| 0 <= j < key_index(acc, k) ==> acc[j].0 != k,
        key_index(acc, k) < acc.len() ==> acc[key_index(acc, k)].0 == k,
    decreases acc.len(),
{
    if acc.len() == 0 || acc[0].0 == k {
    } else {
        lemma_key_index_bounds(acc.skip(1), k);
        assert forall|j: int| 0 <= j < key_index(acc, k) implies acc[j].0 != k by {
            if j > 0 {
                assert(acc[j] == acc.skip(1)[j - 1]);
            }
        }
    }
}

/// Setting a value for a name keeps every name single.
pub proof fn lemma_put_keeps_names_single(
    acc: Seq<(Seq<char>, Seq<char>)>,
    k: Seq<char>,
    v: Seq<char>,
)
    requires
        distinct_keys(acc),
    ensures
        distinct_keys(put(acc, k, v)),
{
    lemma_key_index_bounds(acc, k);
}

proof fn lemma_stats_names_single(w: Wire, acc: Seq<(Seq<char>, Seq<char>)>)
    requires
        distinct_keys(acc),
    ensures
        stats_from(w, acc).0 is Ok ==> distinct_keys(stats_from(w, acc).0->Ok_0),
    decreases w.rest().len(),
{
    lemma_read_line_takes(w);
    match w.read_line() {
        (Err(f), w1) => {},
        (Ok(line), w1) => {
            if has_crlf(line) && b("STAT").is_prefix_of(chomp(line)) {
                match stat_line(line) {
                    Err(f) => {},
                    Ok((k, v)) => {
                        lemma_put_keeps_names_single(acc, k, v);
                        lemma_stats_names_single(w1, put(acc, k, v));
                    },
                }
            }
        },
    }
}

/// In the statistics that a reply decodes to, no name occurs twice.
pub proof fn law_stats_names_single(w: Wire)
    ensures
        stats_reply(w).0 is Ok ==> distinct_keys(stats_reply(w).0->Ok_0),
{
    lemma_stats_names_single(w, Seq::empty());
}

/// A data block takes exactly its length and the two bytes that frame it
/// off the stream, whatever those bytes and the bytes of the block are: no
/// terminator is looked for. Where fewer bytes are left, the read fails and
/// nothing is left.
pub proof fn law_block_exact(w: Wire, n: nat)
    ensures
        match w.read_block(n) {
            (Ok(block), after) => {
                &&& n + 2 <= w.rest().len()
                &&& block == w.rest().take(n as int)
                &&& after.rest() == w.rest().skip(n as int + 2)
                &&& after.data == w.data
                &&& after.starved == w.starved
            },
            (Err(f), after) => {
                &&& w.rest().len() < n + 2
                &&& f == Fault::UnexpectedEof
                &&& after.rest().len() == 0
                &&& after.starved
            },
        },
{
    if n + 2 <= w.rest().len() {
        assert(w.rest().take(n as int + 2).take(n as int) =~= w.rest().take(n as int));
        assert(w.read_block(n).1.rest() =~= w.rest().skip(n as int + 2));
    }
}

proof fn lemma_retrieval_in_order(w: Wire, acc: Seq<ItemModel>)
    ensures
        retrieval_from(w, acc).0 is Ok ==> acc.is_prefix_of(retrieval_from(w, acc).0->Ok_0),
    decreases w.rest().len(),
{
    lemma_read_line_takes(w);
    match w.read_line() {
        (Ok(line), w1) => {
            if line.len() > 0 && b("VALUE").is_prefix_of(line) {
                match value_header(line) {
                    Ok((item, bytes)) => {
                        lemma_read_block_takes(w1, bytes as nat);
                        match w1.read_block(bytes as nat) {
                            (Ok(block), w2) => {
                                let next = acc.push(ItemModel { data_block: block, ..item });
                                lemma_retrieval_in_order(w2, next);
                                if retrieval_from(w2, next).0 is Ok {
                                    let all = retrieval_from(w2, next).0->Ok_0;
                                    assert(all.subrange(0, acc.len() as int) =~= next.subrange(
                                        0,
                                        acc.len() as int,
                                    ));
                                    assert(next.subrange(0, acc.len() as int) =~= acc);
                                }
                            },
                            (Err(_), _) => {},
                        }
                    },
                    Err(_) => {},
                }
            } else if line == b("END\r\n") {
                assert(acc.subrange(0, acc.len() as int) =~= acc);
            }
        },
        (Err(_), _) => {},
    }
}

/// The entries of a retrieval stand in the order in which they arrive: an
/// entry that was read stays where it is, and those that follow it on the
/// stream follow it in the reply, whatever the order of the keys in the
/// command was.
pub proof fn law_retrieval_in_order(w: Wire, acc: Seq<ItemModel>)
    ensures
        retrieval_from(w, acc).0 is Ok ==> acc.is_prefix_of(retrieval_from(w, acc).0->Ok_0),
{
    lemma_retrieval_in_order(w, acc);
}

/// The response to a command of a batch is the reply of the shape that the
/// bytes of the command call for, read from the stream as it stands: what
/// the command was rendered from plays no part.
pub proof fn law_response_by_shape(w: Wire, cmd: Seq<u8>)
    ensures
        response(w, cmd) == shaped_response(w, shape_of(cmd), cmd),
{
    reveal(response);
}

/// The stream as it stands before the response to command `k` of a batch
/// is read, when the responses to the commands before it were read one
/// after the other.
pub open spec fn wire_before(w: Wire, cmds: Seq<Seq<u8>>, k: nat) -> Wire
    decreases k,
{
    if k == 0 {
        w
    } else {
        response(wire_before(w, cmds, (k - 1) as nat), cmds[k - 1]).1
    }
}

/// The response to command `k` of a batch, read where the responses before
/// it left the stream.
pub open spec fn nth_response(w: Wire, cmds: Seq<Seq<u8>>, k: nat) -> Result<Reply, Fault> {
    response(wire_before(w, cmds, k), cmds[k as int]).0
}

/// Whether command `k` is the first of a batch whose response fails.
pub open spec fn first_failure(w: Wire, cmds: Seq<Seq<u8>>, k: nat) -> bool {
    &&& k < cmds.len()
    &&& nth_response(w, cmds, k) is Err
    &&& forall|j: nat| j < k ==> (#[trigger] nth_response(w, cmds, j)) is Ok
}

proof fn lemma_wire_before_shift(w: Wire, cmds: Seq<Seq<u8>>, k: nat)
    requires
        cmds.len() > 0,
        k < cmds.len(),
    ensures
        wire_before(w, cmds, k + 1) == wire_before(response(w, cmds[0]).1, cmds.skip(1), k),
    decreases k,
{
    if k > 0 {
        lemma_wire_before_shift(w, cmds, (k - 1) as nat);
        assert(cmds.skip(1)[k - 1] == cmds[k as int]);
    } else {
        assert(wire_before(w, cmds, 0) == w);
    }
}

proof fn lemma_nth_response_shift(w: Wire, cmds: Seq<Seq<u8>>, k: nat)
    requires
        cmds.len() > 0,
        k + 1 < cmds.len(),
    ensures
        nth_response(w, cmds, k + 1) == nth_response(response(w, cmds[0]).1, cmds.skip(1), k),
{
    lemma_wire_before_shift(w, cmds, k);
    assert(cmds.skip(1)[k as int] == cmds[k as int + 1]);
}

proof fn lemma_responses_from(w: Wire, cmds: Seq<Seq<u8>>, acc: Seq<Reply>)
    ensures
        match responses_from(w, cmds, acc) {
            (Ok(rs), after) => {
                &&& rs.len() == acc.len() + cmds.len()
                &&& forall|i: int| 0 <= i < acc.len() ==> rs[i] == acc[i]
                &&& forall|k: nat|
                    k < cmds.len() ==> #[trigger] nth_response(w, cmds, k) == Ok::<Reply, Fault>(
                        rs[acc.len() as int + k as int],
                    )
                &&& after == wire_before(w, cmds, cmds.len())
            },
            (Err(f), after) => exists|k: nat|
                {
                    &&& #[trigger] first_failure(w, cmds, k)
                    &&& response(wire_before(w, cmds, k), cmds[k as int]) == (
                        Err::<Reply, Fault>(f),
                        after,
                    )
                },
        },
    decreases cmds.len(),
{
    if cmds.len() == 0 {
    } else {
        match response(w, cmds[0]) {
            (Err(f), w1) => {
                assert(first_failure(w, cmds, 0));
            },
            (Ok(x), w1) => {
                let rest = cmds.skip(1);
                lemma_responses_from(w1, rest, acc.push(x));
                assert forall|k: nat| k + 1 < cmds.len() implies nth_response(w, cmds, k + 1)
                    == nth_response(w1, rest, k) by {
                    lemma_nth_response_shift(w, cmds, k);
                }
                lemma_wire_before_shift(w, cmds, (cmds.len() - 1) as nat);
                match responses_from(w1, rest, acc.push(x)) {
                    (Ok(rs), after) => {
                        assert(rs[acc.len() as int] == acc.push(x)[acc.len() as int]);
                        assert forall|k: nat| k < cmds.len() implies #[trigger] nth_response(
                            w,
                            cmds,
                            k,
                        ) == Ok::<Reply, Fault>(rs[acc.len() as int + k as int]) by {
                            if k > 0 {
                                let k1 = (k - 1) as nat;
                                assert(nth_response(w, cmds, k1 + 1) == nth_response(w1, rest, k1));
                            }
                        }
                        assert forall|i: int| 0 <= i < acc.len() implies rs[i] == acc[i] by {
                            assert(rs[i] == acc.push(x)[i]);
                        }
                    },
                    (Err(f), after) => {
                        let k1 = choose|k: nat|
                            {
                                &&& #[trigger] first_failure(w1, rest, k)
                                &&& response(wire_before(w1, rest, k), rest[k as int]) == (
                                    Err::<Reply, Fault>(f),
                                    after,
                                )
                            };
                        let k = k1 + 1;
                        lemma_nth_response_shift(w, cmds, k1);
                        lemma_wire_before_shift(w, cmds, k1);
                        assert(rest[k1 as int] == cmds[k as int]);
                        assert forall|j: nat| j < k implies (#[trigger] nth_response(
                            w,
                            cmds,
                            j,
                        )) is Ok by {
                            if j > 0 {
                                let j1 = (j - 1) as nat;
                                assert(nth_response(w, cmds, j1 + 1) == nth_response(w1, rest, j1));
                            }
                        }
                        assert(first_failure(w, cmds, k));
                    },
                }
            },
        }
    }
}

/// A batch that succeeds has one response for each command, in the order of
/// the commands: response `k` is what the decoder that command `k` calls for
/// read where the responses before it left the stream. A batch that fails
/// fails with the error of the first command whose response fails.
pub proof fn law_pipeline_in_order(w: Wire, cmds: Seq<Seq<u8>>)
    ensures
        match responses(w, cmds) {
            (Ok(rs), after) => {
                &&& rs.len() == cmds.len()
                &&& forall|k: nat|
                    k < cmds.len() ==> #[trigger] nth_response(w, cmds, k) == Ok::<Reply, Fault>(
                        rs[k as int],
                    )
                &&& after == wire_before(w, cmds, cmds.len())
            },
            (Err(f), after) => exists|k: nat|
                {
                    &&& #[trigger] first_failure(w, cmds, k)
                    &&& response(wire_before(w, cmds, k), cmds[k as int]) == (
                        Err::<Reply, Fault>(f),
                        after,
                    )
                },
        },
{
    lemma_responses_from(w, cmds, Seq::empty());
}

/// Where the responses to the first `k` commands of a batch are well-formed
/// and the response to the next is not, the batch as a whole fails with the
/// error of that response: none of the `k` responses is handed out, and the
/// stream stands where the failed response left it.
pub proof fn law_pipeline_fails_whole(w: Wire, cmds: Seq<Seq<u8>>, k: nat)
    requires
        first_failure(w, cmds, k),
    ensures
        responses(w, cmds) == (
            Err::<Seq<Reply>, Fault>(nth_response(w, cmds, k)->Err_0),
            response(wire_before(w, cmds, k), cmds[k as int]).1,
        ),
{
    law_pipeline_in_order(w, cmds);
    match responses(w, cmds) {
        (Ok(rs), after) => {
            assert(nth_response(w, cmds, k) is Ok);
        },
        (Err(f), after) => {
            let k2 = choose|k2: nat|
                {
                    &&& #[trigger] first_failure(w, cmds, k2)
                    &&& response(wire_before(w, cmds, k2), cmds[k2 as int]) == (
                        Err::<Reply, Fault>(f),
                        after,
                    )
                };
            if k2 < k {
                assert(nth_response(w, cmds, k2) is Ok);
            }
            if k < k2 {
                assert(nth_response(w, cmds, k) is Ok);
            }
        },
    }
}

/// Whether a token begins with a letter.
pub open spec fn begins(tok: Seq<u8>, c: u8) -> bool {
    tok.len() > 0 && tok[0] == c
}

/// Whether one of the tokens begins with a letter.
pub open spec fn has_flag(toks: Seq<Seq<u8>>, c: u8) -> bool {
    exists|k: int| 0 <= k < toks.len() && begins(#[trigger] toks[k], c)
}

proof fn lemma_has_flag_step(toks: Seq<Seq<u8>>, c: u8)
    requires
        toks.len() > 0,
    ensures
        has_flag(toks, c) <==> begins(toks[0], c) || has_flag(toks.skip(1), c),
{
    if has_flag(toks, c) {
        let k = choose|k: int| 0 <= k < toks.len() && begins(#[trigger] toks[k], c);
        if k > 0 {
            assert(toks.skip(1)[k - 1] == toks[k]);
        }
    }
    if has_flag(toks.skip(1), c) {
        let k = choose|k: int| 0 <= k < toks.skip(1).len() && begins(#[trigger] toks.skip(1)[k], c);
        assert(toks[k + 1] == toks.skip(1)[k]);
    }
}

proof fn lemma_mg_fields(start: MgModel, toks: Seq<Seq<u8>>, line: Seq<u8>)
    ensures
        match mg_flags(start, toks, line) {
            Ok(item) => {
                &&& item.success == start.success
                &&& item.base64_key <==> start.base64_key || has_flag(toks, 'b' as u8)
                &&& item.cas is Some <==> start.cas is Some || has_flag(toks, 'c' as u8)
                &&& item.flags is Some <==> start.flags is Some || has_flag(toks, 'f' as u8)
                &&& item.hit is Some <==> start.hit is Some || has_flag(toks, 'h' as u8)
                &&& item.key is Some <==> start.key is Some || has_flag(toks, 'k' as u8)
                &&& item.last_access_ttl is Some <==> start.last_access_ttl is Some || has_flag(
                    toks,
                    'l' as u8,
                )
                &&& item.opaque is Some <==> start.opaque is Some || has_flag(toks, 'O' as u8)
                &&& item.size is Some <==> start.size is Some || has_flag(toks, 's' as u8)
                &&& item.ttl is Some <==> start.ttl is Some || has_flag(toks, 't' as u8)
                &&& item.won_recache <==> start.won_recache || has_flag(toks, 'W' as u8)
                &&& item.stale <==> start.stale || has_flag(toks, 'X' as u8)
                &&& item.already_win <==> start.already_win || has_flag(toks, 'Z' as u8)
                &&& item.data_block == start.data_block
            },
            Err(_) => true,
        },
    decreases toks.len(),
{
    if toks.len() > 0 {
        lemma_has_flag_step(toks, 'b' as u8);
        lemma_has_flag_step(toks, 'c' as u8);
        lemma_has_flag_step(toks, 'f' as u8);
        lemma_has_flag_step(toks, 'h' as u8);
        lemma_has_flag_step(toks, 'k' as u8);
        lemma_has_flag_step(toks, 'l' as u8);
        lemma_has_flag_step(toks, 'O' as u8);
        lemma_has_flag_step(toks, 's' as u8);
        lemma_has_flag_step(toks, 't' as u8);
        lemma_has_flag_step(toks, 'W' as u8);
        lemma_has_flag_step(toks, 'X' as u8);
        lemma_has_flag_step(toks, 'Z' as u8);
        match mg_flag(start, toks[0], line) {
            Ok(next) => {
                lemma_mg_fields(next, toks.skip(1), line);
            },
            Err(_) => {},
        }
    }
}

/// In the reply to a meta get, a field is there exactly where a flag
/// token with its letter came, and the payload exactly where the status
/// announced one: a flag that the server left out is never made up.
pub proof fn law_mg_fields(w: Wire)
    ensures
        match mg_reply(w).0 {
            Ok(item) => {
                let line = w.read_line().0->Ok_0;
                let toks = split(chomp(line), SP);
                let st = mg_status(toks)->0;
                let flags = toks.skip(st.flags_at());
                &&& item.success == st.success
                &&& item.base64_key <==> has_flag(flags, 'b' as u8)
                &&& item.cas is Some <==> has_flag(flags, 'c' as u8)
                &&& item.flags is Some <==> has_flag(flags, 'f' as u8)
                &&& item.hit is Some <==> has_flag(flags, 'h' as u8)
                &&& item.key is Some <==> has_flag(flags, 'k' as u8)
                &&& item.last_access_ttl is Some <==> has_flag(flags, 'l' as u8)
                &&& item.opaque is Some <==> has_flag(flags, 'O' as u8)
                &&& item.size is Some <==> has_flag(flags, 's' as u8)
                &&& item.ttl is Some <==> has_flag(flags, 't' as u8)
                &&& item.won_recache <==> has_flag(flags, 'W' as u8)
                &&& item.stale <==> has_flag(flags, 'X' as u8)
                &&& item.already_win <==> has_flag(flags, 'Z' as u8)
                &&& item.data_block is Some <==> st.payload is Some
            },
            Err(_) => true,
        },
{
    match w.read_line().0 {
        Ok(line) => {
            let toks = split(chomp(line), SP);
            if has_crlf(line) && mg_status(toks) is Some {
                let st = mg_status(toks)->0;
                lemma_mg_fields(MgModel::blank(st.success), toks.skip(st.flags_at()), line);
            }
        },
        Err(_) => {},
    }
}

proof fn lemma_ms_fields(start: MsModel, toks: Seq<Seq<u8>>, line: Seq<u8>)
    ensures
        match ms_flags(start, toks, line) {
            Ok(item) => {
                &&& item.success == start.success
                &&& item.cas is Some <==> start.cas is Some || has_flag(toks, 'c' as u8)
                &&& item.key is Some <==> start.key is Some || has_flag(toks, 'k' as u8)
                &&& item.opaque is Some <==> start.opaque is Some || has_flag(toks, 'O' as u8)
                &&& item.size is Some <==> start.size is Some || has_flag(toks, 's' as u8)
                &&& item.base64_key <==> start.base64_key || has_flag(toks, 'b' as u8)
            },
            Err(_) => true,
        },
    decreases toks.len(),
{
    if toks.len() > 0 {
        lemma_has_flag_step(toks, 'c' as u8);
        lemma_has_flag_step(toks, 'k' as u8);
        lemma_has_flag_step(toks, 'O' as u8);
        lemma_has_flag_step(toks, 's' as u8);
        lemma_has_flag_step(toks, 'b' as u8);
        match ms_flag(start, toks[0], line) {
            Ok(next) => {
                lemma_ms_fields(next, toks.skip(1), line);
            },
            Err(_) => {},
        }
    }
}

/// In the reply to a meta set, a field is there exactly where a flag
/// token with its letter came: a flag that the server left out is never
/// made up.
pub proof fn law_ms_fields(w: Wire)
    ensures
        match ms_reply(w).0 {
            Ok(item) => {
                let line = w.read_line().0->Ok_0;
                let toks = split(chomp(line), SP);
                let st = ms_status(toks)->0;
                let flags = toks.skip(1);
                &&& item.success == st.success
                &&& item.cas is Some <==> has_flag(flags, 'c' as u8)
                &&& item.key is Some <==> has_flag(flags, 'k' as u8)
                &&& item.opaque is Some <==> has_flag(flags, 'O' as u8)
                &&& item.size is Some <==> has_flag(flags, 's' as u8)
                &&& item.base64_key <==> has_flag(flags, 'b' as u8)
            },
            Err(_) => true,
        },
{
    match w.read_line().0 {
        Ok(line) => {
            let toks = split(chomp(line), SP);
            if has_crlf(line) && ms_status(toks) is Some {
                let st = ms_status(toks)->0;
                lemma_ms_fields(MsModel::blank(st.success), toks.skip(1), line);
            }
        },
        Err(_) => {},
    }
}

proof fn lemma_md_fields(start: MdModel, toks: Seq<Seq<u8>>, line: Seq<u8>)
    ensures
        match md_flags(start, toks, line) {
            Ok(item) => {
                &&& item.success == start.success
                &&& item.key is Some <==> start.key is Some || has_flag(toks, 'k' as u8)
                &&& item.opaque is Some <==> start.opaque is Some || has_flag(toks, 'O' as u8)
                &&& item.base64_key <==> start.base64_key || has_flag(toks, 'b' as u8)
            },
            Err(_) => true,
        },
    decreases toks.len(),
{
    if toks.len() > 0 {
        lemma_has_flag_step(toks, 'k' as u8);
        lemma_has_flag_step(toks, 'O' as u8);
        lemma_has_flag_step(toks, 'b' as u8);
        match md_flag(start, toks[0], line) {
            Ok(next) => {
                lemma_md_fields(next, toks.skip(1), line);
            },
            Err(_) => {},
        }
    }
}

/// In the reply to a meta delete, a field is there exactly where a flag
/// token with its letter came: a flag that the server left out is never
/// made up.
pub proof fn law_md_fields(w: Wire)
    ensures
        match md_reply(w).0 {
            Ok(item) => {
                let line = w.read_line().0->Ok_0;
                let toks = split(chomp(line), SP);
                let st = md_status(toks)->0;
                let flags = toks.skip(1);
                &&& item.success == st.success
                &&& item.key is Some <==> has_flag(flags, 'k' as u8)
                &&& item.opaque is Some <==> has_flag(flags, 'O' as u8)
                &&& item.base64_key <==> has_flag(flags, 'b' as u8)
            },
            Err(_) => true,
        },
{
    match w.read_line().0 {
        Ok(line) => {
            let toks = split(chomp(line), SP);
            if has_crlf(line) && md_status(toks) is Some {
                let st = md_status(toks)->0;
                lemma_md_fields(MdModel::blank(st.success), toks.skip(1), line);
            }
        },
        Err(_) => {},
    }
}

proof fn lemma_ma_fields(start: MaModel, toks: Seq<Seq<u8>>, line: Seq<u8>)
    ensures
        match ma_flags(start, toks, line) {
            Ok(item) => {
                &&& item.success == start.success
                &&& item.opaque is Some <==> start.opaque is Some || has_flag(toks, 'O' as u8)
                &&& item.ttl is Some <==> start.ttl is Some || has_flag(toks, 't' as u8)
                &&& item.cas is Some <==> start.cas is Some || has_flag(toks, 'c' as u8)
                &&& item.key is Some <==> start.key is Some || has_flag(toks, 'k' as u8)
                &&& item.base64_key <==> start.base64_key || has_flag(toks, 'b' as u8)
                &&& item.number == start.number
            },
            Err(_) => true,
        },
    decreases toks.len(),
{
    if toks.len() > 0 {
        lemma_has_flag_step(toks, 'O' as u8);
        lemma_has_flag_step(toks, 't' as u8);
        lemma_has_flag_step(toks, 'c' as u8);
        lemma_has_flag_step(toks, 'k' as u8);
        lemma_has_flag_step(toks, 'b' as u8);
        match ma_flag(start, toks[0], line) {
            Ok(next) => {
                lemma_ma_fields(next, toks.skip(1), line);
            },
            Err(_) => {},
        }
    }
}

/// In the reply to a meta arithmetic, a field is there exactly where a flag
/// token with its letter came, and the payload exactly where the status
/// announced one: a flag that the server left out is never made up.
pub proof fn law_ma_fields(w: Wire)
    ensures
        match ma_reply(w).0 {
            Ok(item) => {
                let line = w.read_line().0->Ok_0;
                let toks = split(chomp(line), SP);
                let st = ma_status(toks)->0;
                let flags = toks.skip(st.flags_at());
                &&& item.success == st.success
                &&& item.opaque is Some <==> has_flag(flags, 'O' as u8)
                &&& item.ttl is Some <==> has_flag(flags, 't' as u8)
                &&& item.cas is Some <==> has_flag(flags, 'c' as u8)
                &&& item.key is Some <==> has_flag(flags, 'k' as u8)
                &&& item.base64_key <==> has_flag(flags, 'b' as u8)
                &&& item.number is Some <==> st.payload is Some
            },
            Err(_) => true,
        },
{
    match w.read_line().0 {
        Ok(line) => {
            let toks = split(chomp(line), SP);
            if has_crlf(line) && ma_status(toks) is Some {
                let st = ma_status(toks)->0;
                lemma_ma_fields(MaModel::blank(st.success), toks.skip(st.flags_at()), line);
            }
        },
        Err(_) => {},
    }
}

} // verus!
