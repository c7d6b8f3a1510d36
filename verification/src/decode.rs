//! The replies of the text protocol: what each of them decodes to, and how
//! much of the stream it takes.

use crate::meta::read_text;
use crate::meta::refuse;
use crate::meta::text_field;
use crate::model::outcome;
use crate::model::Error;
use crate::model::Fault;
use crate::model::Model;
use crate::stream::lemma_read_block_takes;
use crate::stream::lemma_read_line_takes;
use crate::stream::Connection;
use crate::stream::Wire;
use crate::text::b;
use crate::text::chomp;
use crate::text::copy_range;
use crate::text::ends_crlf;
use crate::text::has_crlf;
use crate::text::parse_u32;
use crate::text::parse_u64;
use crate::text::parse_upto;
use crate::text::parse_usize;
use crate::text::same;
use crate::text::split;
use crate::text::split_on;
use crate::text::starts_with;
use crate::text::SP;
use crate::types::Item;
use crate::types::ItemModel;
use vstd::prelude::*;

verus! {

/// What the status line of a storage command means.
pub open spec fn storage_line(line: Seq<u8>) -> Result<bool, Fault> {
    if line == b("STORED\r\n") {
        Ok(true)
    } else if line == b("NOT_STORED\r\n") || line == b("EXISTS\r\n") || line == b(
        "NOT_FOUND\r\n",
    ) {
        Ok(false)
    } else {
        Err(Fault::Protocol(line))
    }
}

/// The reply to a storage command. With `noreply` there is none: nothing is
/// read and the command counts as stored.
pub open spec fn storage_reply(w: Wire, noreply: bool) -> (Result<bool, Fault>, Wire) {
    if noreply {
        (Ok(true), w)
    } else {
        match w.read_line() {
            (Ok(line), w1) => (storage_line(line), w1),
            (Err(f), w1) => (Err(f), w1),
        }
    }
}

/// What the line after `version` means: the text between `VERSION`, the byte
/// that follows it, and the line terminator.
pub open spec fn version_line(line: Seq<u8>) -> Result<Seq<char>, Fault> {
    if b("VERSION").is_prefix_of(line) && has_crlf(line) && line.len() >= 10 {
        text_field(line.subrange(8, line.len() - 2))
    } else {
        Err(Fault::Protocol(line))
    }
}

/// The reply to `version`.
pub open spec fn version_reply(w: Wire) -> (Result<Seq<char>, Fault>, Wire) {
    match w.read_line() {
        (Ok(line), w1) => (version_line(line), w1),
        (Err(f), w1) => (Err(f), w1),
    }
}

/// What the line after an administrative command means.
pub open spec fn ok_line(line: Seq<u8>) -> Result<(), Fault> {
    if line == b("OK\r\n") {
        Ok(())
    } else {
        Err(Fault::Protocol(line))
    }
}

/// The reply to an administrative command. With `noreply` nothing is read.
pub open spec fn ok_reply(w: Wire, noreply: bool) -> (Result<(), Fault>, Wire) {
    if noreply {
        (Ok(()), w)
    } else {
        match w.read_line() {
            (Ok(line), w1) => (ok_line(line), w1),
            (Err(f), w1) => (Err(f), w1),
        }
    }
}

/// What the line after `delete` means.
pub open spec fn delete_line(line: Seq<u8>) -> Result<bool, Fault> {
    if line == b("DELETED\r\n") {
        Ok(true)
    } else if line == b("NOT_FOUND\r\n") {
        Ok(false)
    } else {
        Err(Fault::Protocol(line))
    }
}

/// The reply to `delete`. With `noreply` nothing is read and the key counts
/// as deleted.
pub open spec fn delete_reply(w: Wire, noreply: bool) -> (Result<bool, Fault>, Wire) {
    if noreply {
        (Ok(true), w)
    } else {
        match w.read_line() {
            (Ok(line), w1) => (delete_line(line), w1),
            (Err(f), w1) => (Err(f), w1),
        }
    }
}

/// What the line after an authentication means.
pub open spec fn auth_line(line: Seq<u8>) -> Result<(), Fault> {
    if line == b("STORED\r\n") {
        Ok(())
    } else {
        Err(Fault::Protocol(line))
    }
}

/// The reply to an authentication.
pub open spec fn auth_reply(w: Wire) -> (Result<(), Fault>, Wire) {
    match w.read_line() {
        (Ok(line), w1) => (auth_line(line), w1),
        (Err(f), w1) => (Err(f), w1),
    }
}

/// What the line after `incr` or `decr` means: the new number, or none where
/// the key does not exist.
pub open spec fn incr_decr_line(line: Seq<u8>) -> Result<Option<u64>, Fault> {
    if line == b("NOT_FOUND\r\n") {
        Ok(None)
    } else if has_crlf(line) && parse_upto(chomp(line), u64::MAX as nat) is Some {
        Ok(Some(parse_upto(chomp(line), u64::MAX as nat)->0 as u64))
    } else {
        Err(Fault::Protocol(line))
    }
}

/// The reply to `incr` or `decr`. With `noreply` nothing is read and no
/// number is known.
pub open spec fn incr_decr_reply(w: Wire, noreply: bool) -> (
    Result<Option<u64>, Fault>,
    Wire,
) {
    if noreply {
        (Ok(None), w)
    } else {
        match w.read_line() {
            (Ok(line), w1) => (incr_decr_line(line), w1),
            (Err(f), w1) => (Err(f), w1),
        }
    }
}

/// What the line after `touch` means.
pub open spec fn touch_line(line: Seq<u8>) -> Result<bool, Fault> {
    if line == b("TOUCHED\r\n") {
        Ok(true)
    } else if line == b("NOT_FOUND\r\n") {
        Ok(false)
    } else {
        Err(Fault::Protocol(line))
    }
}

/// The reply to `touch`. With `noreply` nothing is read and the key counts
/// as touched.
pub open spec fn touch_reply(w: Wire, noreply: bool) -> (Result<bool, Fault>, Wire) {
    if noreply {
        (Ok(true), w)
    } else {
        match w.read_line() {
            (Ok(line), w1) => (touch_line(line), w1),
            (Err(f), w1) => (Err(f), w1),
        }
    }
}

/// What the line after `mn` means.
pub open spec fn mn_line(line: Seq<u8>) -> Result<(), Fault> {
    if line == b("MN\r\n") {
        Ok(())
    } else {
        Err(Fault::Protocol(line))
    }
}

/// The reply to `mn`.
pub open spec fn mn_reply(w: Wire) -> (Result<(), Fault>, Wire) {
    match w.read_line() {
        (Ok(line), w1) => (mn_line(line), w1),
        (Err(f), w1) => (Err(f), w1),
    }
}

/// What the line after `me` means: nothing for `EN`, and for `ME` the text
/// between the byte that follows it and the line terminator.
pub open spec fn me_line(line: Seq<u8>) -> Result<Option<Seq<char>>, Fault> {
    if line == b("EN\r\n") {
        Ok(None)
    } else if b("ME").is_prefix_of(line) && has_crlf(line) && line.len() >= 5 {
        match text_field(line.subrange(3, line.len() - 2)) {
            Ok(t) => Ok(Some(t)),
            Err(f) => Err(f),
        }
    } else {
        Err(Fault::Protocol(line))
    }
}

/// The reply to `me`.
pub open spec fn me_reply(w: Wire) -> (Result<Option<Seq<char>>, Fault>, Wire) {
    match w.read_line() {
        (Ok(line), w1) => (me_line(line), w1),
        (Err(f), w1) => (Err(f), w1),
    }
}

/// The header of one entry of a retrieval: `VALUE`, the key, the flags, the
/// length of the data block and, where the command asked for it, the CAS
/// token. Tokens after the fifth are not read.
pub open spec fn value_header(line: Seq<u8>) -> Result<(ItemModel, usize), Fault> {
    let toks = split(chomp(line), SP);
    let bad = Err::<(ItemModel, usize), Fault>(Fault::Protocol(line));
    if !has_crlf(line) || toks.len() < 4 {
        bad
    } else {
        let flags = parse_upto(toks[2], u32::MAX as nat);
        let bytes = parse_upto(toks[3], usize::MAX as nat);
        let cas = if toks.len() >= 5 {
            parse_upto(toks[4], u64::MAX as nat)
        } else {
            None
        };
        if flags is None || bytes is None || (toks.len() >= 5 && cas is None) {
            bad
        } else {
            match text_field(toks[1]) {
                Err(f) => Err(f),
                Ok(key) => Ok(
                    (
                        ItemModel {
                            key,
                            flags: flags->0 as u32,
                            cas_unique: match cas {
                                Some(c) => Some(c as u64),
                                None => None,
                            },
                            data_block: Seq::empty(),
                        },
                        bytes->0 as usize,
                    ),
                ),
            }
        }
    }
}

/// The reply to a retrieval, from an entry on: entries in the order in which
/// they arrive, each a header line and a data block of exactly the length
/// that the header gives, up to the line `END`.
pub open spec fn retrieval_from(w: Wire, acc: Seq<ItemModel>) -> (
    Result<Seq<ItemModel>, Fault>,
    Wire,
)
    decreases w.rest().len(),
    via retrieval_from_ends
{
    match w.read_line() {
        (Err(f), w1) => (Err(f), w1),
        (Ok(line), w1) => if line.len() > 0 && b("VALUE").is_prefix_of(line) {
            match value_header(line) {
                Err(f) => (Err(f), w1),
                Ok((item, bytes)) => match w1.read_block(bytes as nat) {
                    (Err(f), w2) => (Err(f), w2),
                    (Ok(block), w2) => retrieval_from(
                        w2,
                        acc.push(ItemModel { data_block: block, ..item }),
                    ),
                },
            }
        } else if line == b("END\r\n") {
            (Ok(acc), w1)
        } else {
            (Err(Fault::Protocol(line)), w1)
        },
    }
}

#[via_fn]
proof fn retrieval_from_ends(w: Wire, acc: Seq<ItemModel>) {
    lemma_read_line_takes(w);
    let (l, w1) = w.read_line();
    if l is Ok && value_header(l->Ok_0) is Ok {
        lemma_read_block_takes(w1, value_header(l->Ok_0)->Ok_0.1 as nat);
    }
}

/// The reply to a retrieval.
pub open spec fn retrieval_reply(w: Wire) -> (Result<Seq<ItemModel>, Fault>, Wire) {
    retrieval_from(w, Seq::empty())
}

/// Where a key stands in a list of pairs, or the length of the list when it
/// does not occur.
pub open spec fn key_index(acc: Seq<(Seq<char>, Seq<char>)>, k: Seq<char>) -> int
    decreases acc.len(),
{
    if acc.len() == 0 || acc[0].0 == k {
        0
    } else {
        1 + key_index(acc.skip(1), k)
    }
}

/// A list of pairs with a value set for a key: in the place of the key where
/// it occurs, at the end where it does not.
pub open spec fn put(acc: Seq<(Seq<char>, Seq<char>)>, k: Seq<char>, v: Seq<char>) -> Seq<
    (Seq<char>, Seq<char>),
> {
    let i = key_index(acc, k);
    if 0 <= i < acc.len() {
        acc.update(i, (k, v))
    } else {
        acc.push((k, v))
    }
}

/// Whether no key occurs twice.
pub open spec fn distinct_keys(acc: Seq<(Seq<char>, Seq<char>)>) -> bool {
    forall|i: int, j: int| 0 <= i < j < acc.len() ==> acc[i].0 != acc[j].0
}

/// What a line of statistics holds: the second and the third token.
pub open spec fn stat_line(line: Seq<u8>) -> Result<(Seq<char>, Seq<char>), Fault> {
    let toks = split(chomp(line), SP);
    if toks.len() < 3 {
        Err(Fault::Protocol(line))
    } else {
        match text_field(toks[1]) {
            Err(f) => Err(f),
            Ok(k) => match text_field(toks[2]) {
                Err(f) => Err(f),
                Ok(v) => Ok((k, v)),
            },
        }
    }
}

/// The reply to `stats`, from a line on: lines that begin with `STAT`, up to
/// the line `END`. A name that comes again keeps its place and takes the new
/// value.
pub open spec fn stats_from(w: Wire, acc: Seq<(Seq<char>, Seq<char>)>) -> (
    Result<Seq<(Seq<char>, Seq<char>)>, Fault>,
    Wire,
)
    decreases w.rest().len(),
    via stats_from_ends
{
    match w.read_line() {
        (Err(f), w1) => (Err(f), w1),
        (Ok(line), w1) => if !has_crlf(line) {
            (Err(Fault::Protocol(line)), w1)
        } else if b("STAT").is_prefix_of(chomp(line)) {
            match stat_line(line) {
                Err(f) => (Err(f), w1),
                Ok((k, v)) => stats_from(w1, put(acc, k, v)),
            }
        } else if chomp(line) == b("END") {
            (Ok(acc), w1)
        } else {
            (Err(Fault::Protocol(line)), w1)
        },
    }
}

#[via_fn]
proof fn stats_from_ends(w: Wire, acc: Seq<(Seq<char>, Seq<char>)>) {
    lemma_read_line_takes(w);
}

/// The reply to `stats`.
pub open spec fn stats_reply(w: Wire) -> (Result<Seq<(Seq<char>, Seq<char>)>, Fault>, Wire) {
    stats_from(w, Seq::empty())
}

/// The reply to a dump of item metadata, from a line on: lines that begin
/// with `key=`, each without its terminator, up to the line `END`.
pub open spec fn metadump_from(w: Wire, acc: Seq<Seq<char>>) -> (
    Result<Seq<Seq<char>>, Fault>,
    Wire,
)
    decreases w.rest().len(),
    via metadump_from_ends
{
    match w.read_line() {
        (Err(f), w1) => (Err(f), w1),
        (Ok(line), w1) => if line.len() > 0 && b("key=").is_prefix_of(line) {
            if has_crlf(line) {
                match text_field(chomp(line)) {
                    Err(f) => (Err(f), w1),
                    Ok(t) => metadump_from(w1, acc.push(t)),
                }
            } else {
                (Err(Fault::Protocol(line)), w1)
            }
        } else if line == b("END\r\n") {
            (Ok(acc), w1)
        } else {
            (Err(Fault::Protocol(line)), w1)
        },
    }
}

#[via_fn]
proof fn metadump_from_ends(w: Wire, acc: Seq<Seq<char>>) {
    lemma_read_line_takes(w);
}

/// The reply to a dump of item metadata.
pub open spec fn metadump_reply(w: Wire) -> (Result<Seq<Seq<char>>, Fault>, Wire) {
    metadump_from(w, Seq::empty())
}

/// The key that a line of a key dump holds: its second token.
pub open spec fn mgdump_line(line: Seq<u8>) -> Result<Seq<char>, Fault> {
    let toks = split(chomp(line), SP);
    if has_crlf(line) && toks.len() >= 2 {
        text_field(toks[1])
    } else {
        Err(Fault::Protocol(line))
    }
}

/// The reply to a dump of keys, from a line on: lines that begin with `mg`
/// and a space, up to the line `EN`.
pub open spec fn mgdump_from(w: Wire, acc: Seq<Seq<char>>) -> (
    Result<Seq<Seq<char>>, Fault>,
    Wire,
)
    decreases w.rest().len(),
    via mgdump_from_ends
{
    match w.read_line() {
        (Err(f), w1) => (Err(f), w1),
        (Ok(line), w1) => if line.len() > 0 && b("mg ").is_prefix_of(line) {
            match mgdump_line(line) {
                Err(f) => (Err(f), w1),
                Ok(t) => mgdump_from(w1, acc.push(t)),
            }
        } else if line == b("EN\r\n") {
            (Ok(acc), w1)
        } else {
            (Err(Fault::Protocol(line)), w1)
        },
    }
}

#[via_fn]
proof fn mgdump_from_ends(w: Wire, acc: Seq<Seq<char>>) {
    lemma_read_line_takes(w);
}

/// The reply to a dump of keys.
pub open spec fn mgdump_reply(w: Wire) -> (Result<Seq<Seq<char>>, Fault>, Wire) {
    mgdump_from(w, Seq::empty())
}

/// What a line of a watched stream is: nothing once the stream has ended,
/// else the line without its terminator.
pub open spec fn message_reply(w: Wire) -> (Result<Option<Seq<char>>, Fault>, Wire) {
    match w.read_line() {
        (Err(f), w1) => (Err(f), w1),
        (Ok(line), w1) => if line.len() == 0 {
            (Ok(None), w1)
        } else if has_crlf(line) {
            match text_field(chomp(line)) {
                Ok(t) => (Ok(Some(t)), w1),
                Err(f) => (Err(f), w1),
            }
        } else {
            (Err(Fault::Protocol(line)), w1)
        },
    }
}

/// Reads the reply to a storage command.
pub fn parse_storage_rp(s: &mut Connection, noreply: bool) -> (r: Result<bool, Error>)
    ensures
        (outcome(r), final(s)@) == storage_reply(old(s)@, noreply),
{
    if noreply {
        return Ok(true);
    }
    let line = match s.read_line() {
        Ok(line) => line,
        Err(e) => return Err(e),
    };
    let l = line.as_slice();
    if same(l, "STORED\r\n".as_bytes()) {
        Ok(true)
    } else if same(l, "NOT_STORED\r\n".as_bytes()) || same(l, "EXISTS\r\n".as_bytes()) || same(
        l,
        "NOT_FOUND\r\n".as_bytes(),
    ) {
        Ok(false)
    } else {
        Err(refuse(l))
    }
}

/// Reads the reply to `version`.
pub fn parse_version_rp(s: &mut Connection) -> (r: Result<String, Error>)
    ensures
        (outcome(r), final(s)@) == version_reply(old(s)@),
{
    let line = match s.read_line() {
        Ok(line) => line,
        Err(e) => return Err(e),
    };
    let l = line.as_slice();
    if starts_with(l, "VERSION".as_bytes()) && ends_crlf(l) && l.len() >= 10 {
        let t = copy_range(l, 8, l.len() - 2);
        read_text(t.as_slice())
    } else {
        Err(refuse(l))
    }
}

/// Reads the reply to an administrative command.
pub fn parse_ok_rp(s: &mut Connection, noreply: bool) -> (r: Result<(), Error>)
    ensures
        (outcome(r), final(s)@) == ok_reply(old(s)@, noreply),
{
    if noreply {
        return Ok(());
    }
    let line = match s.read_line() {
        Ok(line) => line,
        Err(e) => return Err(e),
    };
    if same(line.as_slice(), "OK\r\n".as_bytes()) {
        Ok(())
    } else {
        Err(refuse(line.as_slice()))
    }
}

/// Reads the reply to `delete`.
pub fn parse_delete_rp(s: &mut Connection, noreply: bool) -> (r: Result<bool, Error>)
    ensures
        (outcome(r), final(s)@) == delete_reply(old(s)@, noreply),
{
    if noreply {
        return Ok(true);
    }
    let line = match s.read_line() {
        Ok(line) => line,
        Err(e) => return Err(e),
    };
    let l = line.as_slice();
    if same(l, "DELETED\r\n".as_bytes()) {
        Ok(true)
    } else if same(l, "NOT_FOUND\r\n".as_bytes()) {
        Ok(false)
    } else {
        Err(refuse(l))
    }
}

/// Reads the reply to an authentication.
pub fn parse_auth_rp(s: &mut Connection) -> (r: Result<(), Error>)
    ensures
        (outcome(r), final(s)@) == auth_reply(old(s)@),
{
    let line = match s.read_line() {
        Ok(line) => line,
        Err(e) => return Err(e),
    };
    if same(line.as_slice(), "STORED\r\n".as_bytes()) {
        Ok(())
    } else {
        Err(refuse(line.as_slice()))
    }
}

/// Reads the reply to `incr` or `decr`.
pub fn parse_incr_decr_rp(s: &mut Connection, noreply: bool) -> (r: Result<Option<u64>, Error>)
    ensures
        (outcome(r), final(s)@) == incr_decr_reply(old(s)@, noreply),
{
    if noreply {
        return Ok(None);
    }
    let line = match s.read_line() {
        Ok(line) => line,
        Err(e) => return Err(e),
    };
    let l = line.as_slice();
    if same(l, "NOT_FOUND\r\n".as_bytes()) {
        return Ok(None);
    }
    if !ends_crlf(l) {
        return Err(refuse(l));
    }
    let digits = copy_range(l, 0, l.len() - 2);
    assert(digits@ =~= chomp(line@));
    match parse_u64(digits.as_slice()) {
        Some(v) => Ok(Some(v)),
        None => Err(refuse(l)),
    }
}

/// Reads the reply to `touch`.
pub fn parse_touch_rp(s: &mut Connection, noreply: bool) -> (r: Result<bool, Error>)
    ensures
        (outcome(r), final(s)@) == touch_reply(old(s)@, noreply),
{
    if noreply {
        return Ok(true);
    }
    let line = match s.read_line() {
        Ok(line) => line,
        Err(e) => return Err(e),
    };
    let l = line.as_slice();
    if same(l, "TOUCHED\r\n".as_bytes()) {
        Ok(true)
    } else if same(l, "NOT_FOUND\r\n".as_bytes()) {
        Ok(false)
    } else {
        Err(refuse(l))
    }
}

/// Reads the reply to `mn`.
pub fn parse_mn_rp(s: &mut Connection) -> (r: Result<(), Error>)
    ensures
        (outcome(r), final(s)@) == mn_reply(old(s)@),
{
    let line = match s.read_line() {
        Ok(line) => line,
        Err(e) => return Err(e),
    };
    if same(line.as_slice(), "MN\r\n".as_bytes()) {
        Ok(())
    } else {
        Err(refuse(line.as_slice()))
    }
}

/// Reads the reply to `me`.
pub fn parse_me_rp(s: &mut Connection) -> (r: Result<Option<String>, Error>)
    ensures
        (outcome(r), final(s)@) == me_reply(old(s)@),
{
    let line = match s.read_line() {
        Ok(line) => line,
        Err(e) => return Err(e),
    };
    let l = line.as_slice();
    if same(l, "EN\r\n".as_bytes()) {
        Ok(None)
    } else if starts_with(l, "ME".as_bytes()) && ends_crlf(l) && l.len() >= 5 {
        let t = copy_range(l, 3, l.len() - 2);
        match read_text(t.as_slice()) {
            Ok(t) => Ok(Some(t)),
            Err(e) => Err(e),
        }
    } else {
        Err(refuse(l))
    }
}

/// Reads the header of one entry of a retrieval.
fn read_value_header(line: &[u8]) -> (r: Result<(Item, usize), Error>)
    ensures
        match value_header(line@) {
            Ok((item, bytes)) => r is Ok && r->Ok_0.0.model() == item && r->Ok_0.1 == bytes,
            Err(f) => r is Err && r->Err_0.model() == f,
        },
{
    if !ends_crlf(line) {
        return Err(refuse(line));
    }
    let content = copy_range(line, 0, line.len() - 2);
    assert(content@ =~= chomp(line@));
    let toks = split_on(content.as_slice(), SP);
    if toks.len() < 4 {
        return Err(refuse(line));
    }
    let flags = match parse_u32(toks[2].as_slice()) {
        Some(n) => n,
        None => return Err(refuse(line)),
    };
    let bytes = match parse_usize(toks[3].as_slice()) {
        Some(n) => n,
        None => return Err(refuse(line)),
    };
    let cas_unique = if toks.len() >= 5 {
        match parse_u64(toks[4].as_slice()) {
            Some(n) => Some(n),
            None => return Err(refuse(line)),
        }
    } else {
        None
    };
    let key = match read_text(toks[1].as_slice()) {
        Ok(key) => key,
        Err(e) => return Err(e),
    };
    Ok((Item { key, flags, cas_unique, data_block: Vec::new() }, bytes))
}

/// Reads the reply to a retrieval.
pub fn parse_retrieval_rp(s: &mut Connection) -> (r: Result<Vec<Item>, Error>)
    ensures
        (outcome(r), final(s)@) == retrieval_reply(old(s)@),
{
    let mut items: Vec<Item> = Vec::new();
    assert(items.model() =~= Seq::<ItemModel>::empty());
    loop
        invariant
            retrieval_from(s@, items.model()) == retrieval_reply(old(s)@),
        decreases s@.rest().len(),
    {
        let ghost before = s@;
        let ghost acc = items.model();
        proof {
            lemma_read_line_takes(before);
        }
        let line = match s.read_line() {
            Ok(line) => line,
            Err(e) => return Err(e),
        };
        let l = line.as_slice();
        if l.len() > 0 && starts_with(l, "VALUE".as_bytes()) {
            let (mut item, bytes) = match read_value_header(l) {
                Ok(h) => h,
                Err(e) => return Err(e),
            };
            let ghost head = item.model();
            proof {
                lemma_read_block_takes(s@, bytes as nat);
            }
            let block = match s.read_block(bytes) {
                Ok(block) => block,
                Err(e) => return Err(e),
            };
            item.data_block = block;
            items.push(item);
            assert(items.model() =~= acc.push(ItemModel { data_block: block@, ..head }));
        } else if same(l, "END\r\n".as_bytes()) {
            return Ok(items);
        } else {
            return Err(refuse(l));
        }
    }
}

proof fn lemma_key_index_is(acc: Seq<(Seq<char>, Seq<char>)>, k: Seq<char>, i: int)
    requires
        0 <= i <= acc.len(),
        forall|j: int| 0 <= j < i ==> acc[j].0 != k,
        i < acc.len() ==> acc[i].0 == k,
    ensures
        key_index(acc, k) == i,
    decreases acc.len(),
{
    if acc.len() == 0 || acc[0].0 == k {
    } else {
        assert forall|j: int| 0 <= j < i - 1 implies acc.skip(1)[j].0 != k by {
            assert(acc.skip(1)[j] == acc[j + 1]);
        }
        lemma_key_index_is(acc.skip(1), k, i - 1);
    }
}

/// Sets the value for a name in a list of pairs.
fn put_pair(items: &mut Vec<(String, String)>, k: String, v: String)
    ensures
        final(items).model() == put(old(items).model(), k@, v@),
{
    let mut i: usize = 0;
    while i < items.len()
        invariant
            0 <= i <= items@.len(),
            items@ == old(items)@,
            forall|j: int| 0 <= j < i ==> items@[j].0@ != k@,
        decreases items@.len() - i,
    {
        if items[i].0 == k {
            proof {
                lemma_key_index_is(old(items).model(), k@, i as int);
            }
            items[i] = (k, v);
            assert(items.model() =~= put(old(items).model(), k@, v@));
            return ;
        }
        i += 1;
    }
    proof {
        lemma_key_index_is(old(items).model(), k@, items@.len() as int);
    }
    items.push((k, v));
    assert(items.model() =~= put(old(items).model(), k@, v@));
}

/// Reads one line of statistics.
fn read_stat_line(line: &[u8]) -> (r: Result<(String, String), Error>)
    requires
        has_crlf(line@),
    ensures
        match stat_line(line@) {
            Ok((k, v)) => r is Ok && r->Ok_0.0@ == k && r->Ok_0.1@ == v,
            Err(f) => r is Err && r->Err_0.model() == f,
        },
{
    let content = copy_range(line, 0, line.len() - 2);
    assert(content@ =~= chomp(line@));
    let toks = split_on(content.as_slice(), SP);
    if toks.len() < 3 {
        return Err(refuse(line));
    }
    let k = match read_text(toks[1].as_slice()) {
        Ok(k) => k,
        Err(e) => return Err(e),
    };
    let v = match read_text(toks[2].as_slice()) {
        Ok(v) => v,
        Err(e) => return Err(e),
    };
    Ok((k, v))
}

/// Reads the reply to `stats`.
pub fn parse_stats_rp(s: &mut Connection) -> (r: Result<Vec<(String, String)>, Error>)
    ensures
        (outcome(r), final(s)@) == stats_reply(old(s)@),
{
    let mut items: Vec<(String, String)> = Vec::new();
    assert(items.model() =~= Seq::<(Seq<char>, Seq<char>)>::empty());
    loop
        invariant
            stats_from(s@, items.model()) == stats_reply(old(s)@),
        decreases s@.rest().len(),
    {
        proof {
            lemma_read_line_takes(s@);
        }
        let line = match s.read_line() {
            Ok(line) => line,
            Err(e) => return Err(e),
        };
        let l = line.as_slice();
        if !ends_crlf(l) {
            return Err(refuse(l));
        }
        let content = copy_range(l, 0, l.len() - 2);
        assert(content@ =~= chomp(line@));
        if starts_with(content.as_slice(), "STAT".as_bytes()) {
            let (k, v) = match read_stat_line(l) {
                Ok(kv) => kv,
                Err(e) => return Err(e),
            };
            put_pair(&mut items, k, v);
        } else if same(content.as_slice(), "END".as_bytes()) {
            return Ok(items);
        } else {
            return Err(refuse(l));
        }
    }
}

/// Reads the reply to a dump of item metadata.
pub fn parse_lru_crawler_metadump_rp(s: &mut Connection) -> (r: Result<Vec<String>, Error>)
    ensures
        (outcome(r), final(s)@) == metadump_reply(old(s)@),
{
    let mut items: Vec<String> = Vec::new();
    assert(items.model() =~= Seq::<Seq<char>>::empty());
    loop
        invariant
            metadump_from(s@, items.model()) == metadump_reply(old(s)@),
        decreases s@.rest().len(),
    {
        let ghost acc = items.model();
        proof {
            lemma_read_line_takes(s@);
        }
        let line = match s.read_line() {
            Ok(line) => line,
            Err(e) => return Err(e),
        };
        let l = line.as_slice();
        if l.len() > 0 && starts_with(l, "key=".as_bytes()) {
            if !ends_crlf(l) {
                return Err(refuse(l));
            }
            let content = copy_range(l, 0, l.len() - 2);
            assert(content@ =~= chomp(line@));
            let t = match read_text(content.as_slice()) {
                Ok(t) => t,
                Err(e) => return Err(e),
            };
            let ghost tv = t@;
            items.push(t);
            assert(items.model() =~= acc.push(tv));
        } else if same(l, "END\r\n".as_bytes()) {
            return Ok(items);
        } else {
            return Err(refuse(l));
        }
    }
}

/// Reads one line of a dump of keys.
fn read_mgdump_line(line: &[u8]) -> (r: Result<String, Error>)
    ensures
        outcome(r) == mgdump_line(line@),
{
    if !ends_crlf(line) {
        return Err(refuse(line));
    }
    let content = copy_range(line, 0, line.len() - 2);
    assert(content@ =~= chomp(line@));
    let toks = split_on(content.as_slice(), SP);
    if toks.len() >= 2 {
        read_text(toks[1].as_slice())
    } else {
        Err(refuse(line))
    }
}

/// Reads the reply to a dump of keys.
pub fn parse_lru_crawler_mgdump_rp(s: &mut Connection) -> (r: Result<Vec<String>, Error>)
    ensures
        (outcome(r), final(s)@) == mgdump_reply(old(s)@),
{
    let mut items: Vec<String> = Vec::new();
    assert(items.model() =~= Seq::<Seq<char>>::empty());
    loop
        invariant
            mgdump_from(s@, items.model()) == mgdump_reply(old(s)@),
        decreases s@.rest().len(),
    {
        let ghost acc = items.model();
        proof {
            lemma_read_line_takes(s@);
        }
        let line = match s.read_line() {
            Ok(line) => line,
            Err(e) => return Err(e),
        };
        let l = line.as_slice();
        if l.len() > 0 && starts_with(l, "mg ".as_bytes()) {
            let t = match read_mgdump_line(l) {
                Ok(t) => t,
                Err(e) => return Err(e),
            };
            let ghost tv = t@;
            items.push(t);
            assert(items.model() =~= acc.push(tv));
        } else if same(l, "EN\r\n".as_bytes()) {
            return Ok(items);
        } else {
            return Err(refuse(l));
        }
    }
}

/// Reads one line of a watched stream.
pub fn parse_message_rp(s: &mut Connection) -> (r: Result<Option<String>, Error>)
    ensures
        (outcome(r), final(s)@) == message_reply(old(s)@),
{
    let line = match s.read_line() {
        Ok(line) => line,
        Err(e) => return Err(e),
    };
    let l = line.as_slice();
    if l.len() == 0 {
        Ok(None)
    } else if ends_crlf(l) {
        let content = copy_range(l, 0, l.len() - 2);
        assert(content@ =~= chomp(line@));
        match read_text(content.as_slice()) {
            Ok(t) => Ok(Some(t)),
            Err(e) => Err(e),
        }
    } else {
        Err(refuse(l))
    }
}

/// The last entry of a retrieval, if there is one.
pub open spec fn last_item(items: Seq<ItemModel>) -> Option<ItemModel> {
    if items.len() > 0 {
        Some(items.last())
    } else {
        None
    }
}

/// Takes the last entry of a retrieval.
pub fn take_last(items: Vec<Item>) -> (r: Option<Item>)
    ensures
        r.model() == last_item(items.model()),
{
    let mut items = items;
    items.pop()
}

} // verus!
