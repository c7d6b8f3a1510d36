//! The flag grammar of the meta protocol: how the flags of a request are
//! rendered, and how the flags of a reply are read.

use crate::model::outcome;
use crate::model::Error;
use crate::model::Fault;
use crate::model::Model;
use crate::stream::Connection;
use crate::stream::Wire;
use crate::text::b;
use crate::text::chomp;
use crate::text::copy_range;
use crate::text::ends_crlf;
use crate::text::has_crlf;
use crate::text::parse_i64;
use crate::text::parse_i64_spec;
use crate::text::parse_u32;
use crate::text::parse_u64;
use crate::text::parse_u8;
use crate::text::parse_upto;
use crate::text::parse_usize;
use crate::text::same;
use crate::text::split;
use crate::text::split_on;
use crate::text::to_text;
use crate::text::views;
use crate::text::SP;
use crate::types::MaItem;
use crate::types::MaModel;
use crate::types::MdItem;
use crate::types::MdModel;
use crate::types::MgItem;
use crate::types::MgModel;
use crate::types::MsItem;
use crate::types::MsModel;
use vstd::prelude::*;
use vstd::utf8::decode_utf8;
use vstd::utf8::valid_utf8;

verus! {

/// The status of a meta reply: whether the command succeeded, and the length
/// of the payload that follows, if one does.
pub struct Status {
    pub success: bool,
    pub payload: Option<usize>,
}

impl Status {
    /// The index of the first token that is a flag.
    pub open spec fn flags_at(self) -> int {
        if self.payload is Some {
            2
        } else {
            1
        }
    }
}

/// A status that announces a payload: `VA` and its length.
pub open spec fn value_status(toks: Seq<Seq<u8>>) -> Option<Status> {
    if toks.len() >= 2 {
        match parse_upto(toks[1], usize::MAX as nat) {
            Some(n) => Some(Status { success: true, payload: Some(n as usize) }),
            None => None,
        }
    } else {
        None
    }
}

/// The status of a reply to a meta get.
pub open spec fn mg_status(toks: Seq<Seq<u8>>) -> Option<Status> {
    if toks[0] == b("VA") {
        value_status(toks)
    } else if toks[0] == b("HD") {
        Some(Status { success: true, payload: None })
    } else if toks[0] == b("EN") {
        Some(Status { success: false, payload: None })
    } else {
        None
    }
}

/// A field that holds text.
pub open spec fn text_field(arg: Seq<u8>) -> Result<Seq<char>, Fault> {
    if valid_utf8(arg) {
        Ok(decode_utf8(arg))
    } else {
        Err(Fault::InvalidData)
    }
}

/// What one flag token of a reply to a meta get adds to the reply. A token
/// without a letter, with a letter that a meta get never returns, or with a
/// malformed number is refused.
pub open spec fn mg_flag(item: MgModel, tok: Seq<u8>, line: Seq<u8>) -> Result<MgModel, Fault> {
    let bad = Err::<MgModel, Fault>(Fault::Protocol(line));
    if tok.len() == 0 {
        bad
    } else {
        let arg = tok.skip(1);
        let c = tok[0];
        if c == 'b' as u8 {
            Ok(MgModel { base64_key: true, ..item })
        } else if c == 'c' as u8 {
            match parse_upto(arg, u64::MAX as nat) {
                Some(n) => Ok(MgModel { cas: Some(n as u64), ..item }),
                None => bad,
            }
        } else if c == 'f' as u8 {
            match parse_upto(arg, u32::MAX as nat) {
                Some(n) => Ok(MgModel { flags: Some(n as u32), ..item }),
                None => bad,
            }
        } else if c == 'h' as u8 {
            match parse_upto(arg, u8::MAX as nat) {
                Some(n) => Ok(MgModel { hit: Some(n as u8), ..item }),
                None => bad,
            }
        } else if c == 'k' as u8 {
            match text_field(arg) {
                Ok(t) => Ok(MgModel { key: Some(t), ..item }),
                Err(f) => Err(f),
            }
        } else if c == 'l' as u8 {
            match parse_i64_spec(arg) {
                Some(n) => Ok(MgModel { last_access_ttl: Some(n as i64), ..item }),
                None => bad,
            }
        } else if c == 'O' as u8 {
            match text_field(arg) {
                Ok(t) => Ok(MgModel { opaque: Some(t), ..item }),
                Err(f) => Err(f),
            }
        } else if c == 's' as u8 {
            match parse_upto(arg, usize::MAX as nat) {
                Some(n) => Ok(MgModel { size: Some(n as usize), ..item }),
                None => bad,
            }
        } else if c == 't' as u8 {
            match parse_i64_spec(arg) {
                Some(n) => Ok(MgModel { ttl: Some(n as i64), ..item }),
                None => bad,
            }
        } else if c == 'W' as u8 {
            Ok(MgModel { won_recache: true, ..item })
        } else if c == 'X' as u8 {
            Ok(MgModel { stale: true, ..item })
        } else if c == 'Z' as u8 {
            Ok(MgModel { already_win: true, ..item })
        } else {
            bad
        }
    }
}

/// The flag tokens of a reply to a meta get, applied from left to right. A
/// letter that comes twice keeps its last value.
pub open spec fn mg_flags(item: MgModel, toks: Seq<Seq<u8>>, line: Seq<u8>) -> Result<
    MgModel,
    Fault,
>
    decreases toks.len(),
{
    if toks.len() == 0 {
        Ok(item)
    } else {
        match mg_flag(item, toks[0], line) {
            Ok(next) => mg_flags(next, toks.skip(1), line),
            Err(f) => Err(f),
        }
    }
}

/// The reply to a meta get: a status line with its flags, and after `VA` a
/// data block of the length the line gives.
pub open spec fn mg_reply(w: Wire) -> (Result<MgModel, Fault>, Wire) {
    let (l, w1) = w.read_line();
    match l {
        Err(f) => (Err(f), w1),
        Ok(line) => {
            let toks = split(chomp(line), SP);
            if !has_crlf(line) || mg_status(toks) is None {
                (Err(Fault::Protocol(line)), w1)
            } else {
                let st = mg_status(toks)->0;
                match mg_flags(MgModel::blank(st.success), toks.skip(st.flags_at()), line) {
                    Err(f) => (Err(f), w1),
                    Ok(item) => match st.payload {
                        None => (Ok(item), w1),
                        Some(n) => match w1.read_block(n as nat) {
                            (Ok(block), w2) => (
                                Ok(MgModel { data_block: Some(block), ..item }),
                                w2,
                            ),
                            (Err(f), w2) => (Err(f), w2),
                        },
                    },
                }
            }
        },
    }
}

/// The status of a reply to a meta set.
pub open spec fn ms_status(toks: Seq<Seq<u8>>) -> Option<Status> {
    if toks[0] == b("HD") {
        Some(Status { success: true, payload: None })
    } else if toks[0] == b("NS") || toks[0] == b("EX") || toks[0] == b("NF") {
        Some(Status { success: false, payload: None })
    } else {
        None
    }
}

/// The status of a reply to a meta delete.
pub open spec fn md_status(toks: Seq<Seq<u8>>) -> Option<Status> {
    if toks[0] == b("HD") {
        Some(Status { success: true, payload: None })
    } else if toks[0] == b("NF") || toks[0] == b("EX") {
        Some(Status { success: false, payload: None })
    } else {
        None
    }
}

/// The status of a reply to a meta arithmetic.
pub open spec fn ma_status(toks: Seq<Seq<u8>>) -> Option<Status> {
    if toks[0] == b("VA") {
        value_status(toks)
    } else if toks[0] == b("HD") {
        Some(Status { success: true, payload: None })
    } else if toks[0] == b("NS") || toks[0] == b("EX") || toks[0] == b("NF") {
        Some(Status { success: false, payload: None })
    } else {
        None
    }
}

/// What one flag token of a reply to a meta set adds to the reply. A token
/// without a letter, with a letter that a meta set never returns, or with a
/// malformed number is refused.
pub open spec fn ms_flag(item: MsModel, tok: Seq<u8>, line: Seq<u8>) -> Result<MsModel, Fault> {
    let bad = Err::<MsModel, Fault>(Fault::Protocol(line));
    if tok.len() == 0 {
        bad
    } else {
        let arg = tok.skip(1);
        let c = tok[0];
        if c == 'c' as u8 {
            match parse_upto(arg, u64::MAX as nat) {
                Some(n) => Ok(MsModel { cas: Some(n as u64), ..item }),
                None => bad,
            }
        } else if c == 'k' as u8 {
            match text_field(arg) {
                Ok(t) => Ok(MsModel { key: Some(t), ..item }),
                Err(f) => Err(f),
            }
        } else if c == 'O' as u8 {
            match text_field(arg) {
                Ok(t) => Ok(MsModel { opaque: Some(t), ..item }),
                Err(f) => Err(f),
            }
        } else if c == 's' as u8 {
            match parse_upto(arg, usize::MAX as nat) {
                Some(n) => Ok(MsModel { size: Some(n as usize), ..item }),
                None => bad,
            }
        } else if c == 'b' as u8 {
            Ok(MsModel { base64_key: true, ..item })
        } else {
            bad
        }
    }
}

/// The flag tokens of a reply to a meta set, applied from left to right. A
/// letter that comes twice keeps its last value.
pub open spec fn ms_flags(item: MsModel, toks: Seq<Seq<u8>>, line: Seq<u8>) -> Result<
    MsModel,
    Fault,
>
    decreases toks.len(),
{
    if toks.len() == 0 {
        Ok(item)
    } else {
        match ms_flag(item, toks[0], line) {
            Ok(next) => ms_flags(next, toks.skip(1), line),
            Err(f) => Err(f),
        }
    }
}

/// What one flag token of a reply to a meta delete adds to the reply. A token
/// without a letter, with a letter that a meta delete never returns, or with a
/// malformed number is refused.
pub open spec fn md_flag(item: MdModel, tok: Seq<u8>, line: Seq<u8>) -> Result<MdModel, Fault> {
    let bad = Err::<MdModel, Fault>(Fault::Protocol(line));
    if tok.len() == 0 {
        bad
    } else {
        let arg = tok.skip(1);
        let c = tok[0];
        if c == 'k' as u8 {
            match text_field(arg) {
                Ok(t) => Ok(MdModel { key: Some(t), ..item }),
                Err(f) => Err(f),
            }
        } else if c == 'O' as u8 {
            match text_field(arg) {
                Ok(t) => Ok(MdModel { opaque: Some(t), ..item }),
                Err(f) => Err(f),
            }
        } else if c == 'b' as u8 {
            Ok(MdModel { base64_key: true, ..item })
        } else {
            bad
        }
    }
}

/// The flag tokens of a reply to a meta delete, applied from left to right. A
/// letter that comes twice keeps its last value.
pub open spec fn md_flags(item: MdModel, toks: Seq<Seq<u8>>, line: Seq<u8>) -> Result<
    MdModel,
    Fault,
>
    decreases toks.len(),
{
    if toks.len() == 0 {
        Ok(item)
    } else {
        match md_flag(item, toks[0], line) {
            Ok(next) => md_flags(next, toks.skip(1), line),
            Err(f) => Err(f),
        }
    }
}

/// What one flag token of a reply to a meta arithmetic adds to the reply. A token
/// without a letter, with a letter that a meta arithmetic never returns, or with a
/// malformed number is refused.
pub open spec fn ma_flag(item: MaModel, tok: Seq<u8>, line: Seq<u8>) -> Result<MaModel, Fault> {
    let bad = Err::<MaModel, Fault>(Fault::Protocol(line));
    if tok.len() == 0 {
        bad
    } else {
        let arg = tok.skip(1);
        let c = tok[0];
        if c == 'O' as u8 {
            match text_field(arg) {
                Ok(t) => Ok(MaModel { opaque: Some(t), ..item }),
                Err(f) => Err(f),
            }
        } else if c == 't' as u8 {
            match parse_i64_spec(arg) {
                Some(n) => Ok(MaModel { ttl: Some(n as i64), ..item }),
                None => bad,
            }
        } else if c == 'c' as u8 {
            match parse_upto(arg, u64::MAX as nat) {
                Some(n) => Ok(MaModel { cas: Some(n as u64), ..item }),
                None => bad,
            }
        } else if c == 'k' as u8 {
            match text_field(arg) {
                Ok(t) => Ok(MaModel { key: Some(t), ..item }),
                Err(f) => Err(f),
            }
        } else if c == 'b' as u8 {
            Ok(MaModel { base64_key: true, ..item })
        } else {
            bad
        }
    }
}

/// The flag tokens of a reply to a meta arithmetic, applied from left to right. A
/// letter that comes twice keeps its last value.
pub open spec fn ma_flags(item: MaModel, toks: Seq<Seq<u8>>, line: Seq<u8>) -> Result<
    MaModel,
    Fault,
>
    decreases toks.len(),
{
    if toks.len() == 0 {
        Ok(item)
    } else {
        match ma_flag(item, toks[0], line) {
            Ok(next) => ma_flags(next, toks.skip(1), line),
            Err(f) => Err(f),
        }
    }
}

/// The reply to a meta set: a status line with its flags.
pub open spec fn ms_reply(w: Wire) -> (Result<MsModel, Fault>, Wire) {
    let (l, w1) = w.read_line();
    match l {
        Err(f) => (Err(f), w1),
        Ok(line) => {
            let toks = split(chomp(line), SP);
            if !has_crlf(line) || ms_status(toks) is None {
                (Err(Fault::Protocol(line)), w1)
            } else {
                let st = ms_status(toks)->0;
                (ms_flags(MsModel::blank(st.success), toks.skip(1), line), w1)
            }
        },
    }
}

/// The reply to a meta delete: a status line with its flags.
pub open spec fn md_reply(w: Wire) -> (Result<MdModel, Fault>, Wire) {
    let (l, w1) = w.read_line();
    match l {
        Err(f) => (Err(f), w1),
        Ok(line) => {
            let toks = split(chomp(line), SP);
            if !has_crlf(line) || md_status(toks) is None {
                (Err(Fault::Protocol(line)), w1)
            } else {
                let st = md_status(toks)->0;
                (md_flags(MdModel::blank(st.success), toks.skip(1), line), w1)
            }
        },
    }
}

/// The part of a payload line that holds the number: its first `n` bytes, or
/// all of it when it is shorter.
pub open spec fn number_text(payload: Seq<u8>, n: nat) -> Seq<u8> {
    if n <= payload.len() {
        payload.take(n as int)
    } else {
        payload
    }
}

/// The reply to a meta arithmetic: a status line with its flags, and after
/// `VA` a line that holds the new number in as many digits as the status line
/// announced.
pub open spec fn ma_reply(w: Wire) -> (Result<MaModel, Fault>, Wire) {
    let (l, w1) = w.read_line();
    match l {
        Err(f) => (Err(f), w1),
        Ok(line) => {
            let toks = split(chomp(line), SP);
            if !has_crlf(line) || ma_status(toks) is None {
                (Err(Fault::Protocol(line)), w1)
            } else {
                let st = ma_status(toks)->0;
                match ma_flags(MaModel::blank(st.success), toks.skip(st.flags_at()), line) {
                    Err(f) => (Err(f), w1),
                    Ok(item) => match st.payload {
                        None => (Ok(item), w1),
                        Some(n) => match w1.read_line() {
                            (Err(f), w2) => (Err(f), w2),
                            (Ok(payload), w2) => match parse_upto(
                                number_text(payload, n as nat),
                                u64::MAX as nat,
                            ) {
                                Some(v) => (Ok(MaModel { number: Some(v as u64), ..item }), w2),
                                None => (Err(Fault::Protocol(payload)), w2),
                            },
                        },
                    },
                }
            }
        },
    }
}

/// The error for a line that does not fit.
pub fn refuse(line: &[u8]) -> (e: Error)
    ensures
        e.model() == Fault::Protocol(line@),
{
    let copy = copy_range(line, 0, line.len());
    assert(copy@ =~= line@);
    Error::Protocol(copy)
}

/// Reads a field that holds text.
pub fn read_text(arg: &[u8]) -> (r: Result<String, Error>)
    ensures
        outcome(r) == text_field(arg@),
{
    match to_text(arg) {
        Some(t) => Ok(t),
        None => Err(Error::InvalidData),
    }
}

fn read_value_status(toks: &Vec<Vec<u8>>) -> (r: Option<Status>)
    ensures
        r == value_status(views(toks@)),
{
    if toks.len() >= 2 {
        match parse_usize(toks[1].as_slice()) {
            Some(n) => Some(Status { success: true, payload: Some(n) }),
            None => None,
        }
    } else {
        None
    }
}

fn read_mg_status(toks: &Vec<Vec<u8>>) -> (r: Option<Status>)
    requires
        toks@.len() >= 1,
    ensures
        r == mg_status(views(toks@)),
{
    let head = toks[0].as_slice();
    if same(head, "VA".as_bytes()) {
        read_value_status(toks)
    } else if same(head, "HD".as_bytes()) {
        Some(Status { success: true, payload: None })
    } else if same(head, "EN".as_bytes()) {
        Some(Status { success: false, payload: None })
    } else {
        None
    }
}

fn read_mg_flag(item: MgItem, tok: &[u8], line: &[u8]) -> (r: Result<MgItem, Error>)
    ensures
        outcome(r) == mg_flag(item.model(), tok@, line@),
{
    if tok.len() == 0 {
        return Err(refuse(line));
    }
    let arg = copy_range(tok, 1, tok.len());
    let arg = arg.as_slice();
    assert(arg@ == tok@.skip(1));
    let c = tok[0];
    let mut item = item;
    if c == 'b' as u8 {
        item.base64_key = true;
    } else if c == 'c' as u8 {
        match parse_u64(arg) {
            Some(n) => item.cas = Some(n),
            None => return Err(refuse(line)),
        }
    } else if c == 'f' as u8 {
        match parse_u32(arg) {
            Some(n) => item.flags = Some(n),
            None => return Err(refuse(line)),
        }
    } else if c == 'h' as u8 {
        match parse_u8(arg) {
            Some(n) => item.hit = Some(n),
            None => return Err(refuse(line)),
        }
    } else if c == 'k' as u8 {
        match read_text(arg) {
            Ok(t) => item.key = Some(t),
            Err(e) => return Err(e),
        }
    } else if c == 'l' as u8 {
        match parse_i64(arg) {
            Some(n) => item.last_access_ttl = Some(n),
            None => return Err(refuse(line)),
        }
    } else if c == 'O' as u8 {
        match read_text(arg) {
            Ok(t) => item.opaque = Some(t),
            Err(e) => return Err(e),
        }
    } else if c == 's' as u8 {
        match parse_usize(arg) {
            Some(n) => item.size = Some(n),
            None => return Err(refuse(line)),
        }
    } else if c == 't' as u8 {
        match parse_i64(arg) {
            Some(n) => item.ttl = Some(n),
            None => return Err(refuse(line)),
        }
    } else if c == 'W' as u8 {
        item.won_recache = true;
    } else if c == 'X' as u8 {
        item.stale = true;
    } else if c == 'Z' as u8 {
        item.already_win = true;
    } else {
        return Err(refuse(line));
    }
    Ok(item)
}

fn read_mg_flags(item: MgItem, toks: &Vec<Vec<u8>>, first: usize, line: &[u8]) -> (r: Result<
    MgItem,
    Error,
>)
    requires
        first <= toks@.len(),
    ensures
        outcome(r) == mg_flags(item.model(), views(toks@).skip(first as int), line@),
{
    let ghost start = item.model();
    let mut cur = item;
    let mut i: usize = first;
    while i < toks.len()
        invariant
            first <= i <= toks@.len(),
            start == item.model(),
            mg_flags(cur.model(), views(toks@).skip(i as int), line@) == mg_flags(
                start,
                views(toks@).skip(first as int),
                line@,
            ),
        decreases toks@.len() - i,
    {
        let ghost rest = views(toks@).skip(i as int);
        let ghost before = cur.model();
        proof {
            assert(rest.len() > 0);
            assert(rest[0] == toks@[i as int]@);
            assert(rest.skip(1) =~= views(toks@).skip(i + 1));
        }
        match read_mg_flag(cur, toks[i].as_slice(), line) {
            Ok(next) => {
                cur = next;
            },
            Err(e) => {
                return Err(e);
            },
        }
        i += 1;
    }
    Ok(cur)
}

/// Reads the reply to a meta get.
pub fn parse_mg_rp(s: &mut Connection) -> (r: Result<MgItem, Error>)
    ensures
        (outcome(r), final(s)@) == mg_reply(old(s)@),
{
    let line = match s.read_line() {
        Ok(line) => line,
        Err(e) => return Err(e),
    };
    if !ends_crlf(line.as_slice()) {
        return Err(refuse(line.as_slice()));
    }
    let content = copy_range(line.as_slice(), 0, line.len() - 2);
    let toks = split_on(content.as_slice(), SP);
    assert(content@ =~= chomp(line@));
    let st = match read_mg_status(&toks) {
        Some(st) => st,
        None => return Err(refuse(line.as_slice())),
    };
    let blank = MgItem {
        success: st.success,
        base64_key: false,
        cas: None,
        flags: None,
        hit: None,
        key: None,
        last_access_ttl: None,
        opaque: None,
        size: None,
        ttl: None,
        data_block: None,
        won_recache: false,
        stale: false,
        already_win: false,
    };
    let first: usize = if st.payload.is_some() {
        2
    } else {
        1
    };
    let mut item = match read_mg_flags(blank, &toks, first, line.as_slice()) {
        Ok(item) => item,
        Err(e) => return Err(e),
    };
    match st.payload {
        None => Ok(item),
        Some(n) => match s.read_block(n) {
            Ok(block) => {
                item.data_block = Some(block);
                Ok(item)
            },
            Err(e) => Err(e),
        },
    }
}

fn read_ms_status(toks: &Vec<Vec<u8>>) -> (r: Option<Status>)
    requires
        toks@.len() >= 1,
    ensures
        r == ms_status(views(toks@)),
{
    let head = toks[0].as_slice();
    if same(head, "HD".as_bytes()) {
        Some(Status { success: true, payload: None })
    } else if same(head, "NS".as_bytes()) || same(head, "EX".as_bytes()) || same(
        head,
        "NF".as_bytes(),
    ) {
        Some(Status { success: false, payload: None })
    } else {
        None
    }
}

fn read_md_status(toks: &Vec<Vec<u8>>) -> (r: Option<Status>)
    requires
        toks@.len() >= 1,
    ensures
        r == md_status(views(toks@)),
{
    let head = toks[0].as_slice();
    if same(head, "HD".as_bytes()) {
        Some(Status { success: true, payload: None })
    } else if same(head, "NF".as_bytes()) || same(head, "EX".as_bytes()) {
        Some(Status { success: false, payload: None })
    } else {
        None
    }
}

fn read_ma_status(toks: &Vec<Vec<u8>>) -> (r: Option<Status>)
    requires
        toks@.len() >= 1,
    ensures
        r == ma_status(views(toks@)),
{
    let head = toks[0].as_slice();
    if same(head, "VA".as_bytes()) {
        read_value_status(toks)
    } else if same(head, "HD".as_bytes()) {
        Some(Status { success: true, payload: None })
    } else if same(head, "NS".as_bytes()) || same(head, "EX".as_bytes()) || same(
        head,
        "NF".as_bytes(),
    ) {
        Some(Status { success: false, payload: None })
    } else {
        None
    }
}

fn read_ms_flag(item: MsItem, tok: &[u8], line: &[u8]) -> (r: Result<MsItem, Error>)
    ensures
        outcome(r) == ms_flag(item.model(), tok@, line@),
{
    if tok.len() == 0 {
        return Err(refuse(line));
    }
    let arg = copy_range(tok, 1, tok.len());
    let arg = arg.as_slice();
    assert(arg@ == tok@.skip(1));
    let c = tok[0];
    let mut item = item;
    if c == 'c' as u8 {
        match parse_u64(arg) {
            Some(n) => item.cas = Some(n),
            None => return Err(refuse(line)),
        }
    } else if c == 'k' as u8 {
        match read_text(arg) {
            Ok(t) => item.key = Some(t),
            Err(e) => return Err(e),
        }
    } else if c == 'O' as u8 {
        match read_text(arg) {
            Ok(t) => item.opaque = Some(t),
            Err(e) => return Err(e),
        }
    } else if c == 's' as u8 {
        match parse_usize(arg) {
            Some(n) => item.size = Some(n),
            None => return Err(refuse(line)),
        }
    } else if c == 'b' as u8 {
        item.base64_key = true;
    } else {
        return Err(refuse(line));
    }
    Ok(item)
}

fn read_ms_flags(item: MsItem, toks: &Vec<Vec<u8>>, first: usize, line: &[u8]) -> (r: Result<
    MsItem,
    Error,
>)
    requires
        first <= toks@.len(),
    ensures
        outcome(r) == ms_flags(item.model(), views(toks@).skip(first as int), line@),
{
    let ghost start = item.model();
    let mut cur = item;
    let mut i: usize = first;
    while i < toks.len()
        invariant
            first <= i <= toks@.len(),
            start == item.model(),
            ms_flags(cur.model(), views(toks@).skip(i as int), line@) == ms_flags(
                start,
                views(toks@).skip(first as int),
                line@,
            ),
        decreases toks@.len() - i,
    {
        proof {
            let rest = views(toks@).skip(i as int);
            assert(rest.len() > 0);
            assert(rest[0] == toks@[i as int]@);
            assert(rest.skip(1) =~= views(toks@).skip(i + 1));
        }
        match read_ms_flag(cur, toks[i].as_slice(), line) {
            Ok(next) => {
                cur = next;
            },
            Err(e) => {
                return Err(e);
            },
        }
        i += 1;
    }
    Ok(cur)
}

fn read_md_flag(item: MdItem, tok: &[u8], line: &[u8]) -> (r: Result<MdItem, Error>)
    ensures
        outcome(r) == md_flag(item.model(), tok@, line@),
{
    if tok.len() == 0 {
        return Err(refuse(line));
    }
    let arg = copy_range(tok, 1, tok.len());
    let arg = arg.as_slice();
    assert(arg@ == tok@.skip(1));
    let c = tok[0];
    let mut item = item;
    if c == 'k' as u8 {
        match read_text(arg) {
            Ok(t) => item.key = Some(t),
            Err(e) => return Err(e),
        }
    } else if c == 'O' as u8 {
        match read_text(arg) {
            Ok(t) => item.opaque = Some(t),
            Err(e) => return Err(e),
        }
    } else if c == 'b' as u8 {
        item.base64_key = true;
    } else {
        return Err(refuse(line));
    }
    Ok(item)
}

fn read_md_flags(item: MdItem, toks: &Vec<Vec<u8>>, first: usize, line: &[u8]) -> (r: Result<
    MdItem,
    Error,
>)
    requires
        first <= toks@.len(),
    ensures
        outcome(r) == md_flags(item.model(), views(toks@).skip(first as int), line@),
{
    let ghost start = item.model();
    let mut cur = item;
    let mut i: usize = first;
    while i < toks.len()
        invariant
            first <= i <= toks@.len(),
            start == item.model(),
            md_flags(cur.model(), views(toks@).skip(i as int), line@) == md_flags(
                start,
                views(toks@).skip(first as int),
                line@,
            ),
        decreases toks@.len() - i,
    {
        proof {
            let rest = views(toks@).skip(i as int);
            assert(rest.len() > 0);
            assert(rest[0] == toks@[i as int]@);
            assert(rest.skip(1) =~= views(toks@).skip(i + 1));
        }
        match read_md_flag(cur, toks[i].as_slice(), line) {
            Ok(next) => {
                cur = next;
            },
            Err(e) => {
                return Err(e);
            },
        }
        i += 1;
    }
    Ok(cur)
}

fn read_ma_flag(item: MaItem, tok: &[u8], line: &[u8]) -> (r: Result<MaItem, Error>)
    ensures
        outcome(r) == ma_flag(item.model(), tok@, line@),
{
    if tok.len() == 0 {
        return Err(refuse(line));
    }
    let arg = copy_range(tok, 1, tok.len());
    let arg = arg.as_slice();
    assert(arg@ == tok@.skip(1));
    let c = tok[0];
    let mut item = item;
    if c == 'O' as u8 {
        match read_text(arg) {
            Ok(t) => item.opaque = Some(t),
            Err(e) => return Err(e),
        }
    } else if c == 't' as u8 {
        match parse_i64(arg) {
            Some(n) => item.ttl = Some(n),
            None => return Err(refuse(line)),
        }
    } else if c == 'c' as u8 {
        match parse_u64(arg) {
            Some(n) => item.cas = Some(n),
            None => return Err(refuse(line)),
        }
    } else if c == 'k' as u8 {
        match read_text(arg) {
            Ok(t) => item.key = Some(t),
            Err(e) => return Err(e),
        }
    } else if c == 'b' as u8 {
        item.base64_key = true;
    } else {
        return Err(refuse(line));
    }
    Ok(item)
}

fn read_ma_flags(item: MaItem, toks: &Vec<Vec<u8>>, first: usize, line: &[u8]) -> (r: Result<
    MaItem,
    Error,
>)
    requires
        first <= toks@.len(),
    ensures
        outcome(r) == ma_flags(item.model(), views(toks@).skip(first as int), line@),
{
    let ghost start = item.model();
    let mut cur = item;
    let mut i: usize = first;
    while i < toks.len()
        invariant
            first <= i <= toks@.len(),
            start == item.model(),
            ma_flags(cur.model(), views(toks@).skip(i as int), line@) == ma_flags(
                start,
                views(toks@).skip(first as int),
                line@,
            ),
        decreases toks@.len() - i,
    {
        proof {
            let rest = views(toks@).skip(i as int);
            assert(rest.len() > 0);
            assert(rest[0] == toks@[i as int]@);
            assert(rest.skip(1) =~= views(toks@).skip(i + 1));
        }
        match read_ma_flag(cur, toks[i].as_slice(), line) {
            Ok(next) => {
                cur = next;
            },
            Err(e) => {
                return Err(e);
            },
        }
        i += 1;
    }
    Ok(cur)
}

/// Reads the reply to a meta set.
pub fn parse_ms_rp(s: &mut Connection) -> (r: Result<MsItem, Error>)
    ensures
        (outcome(r), final(s)@) == ms_reply(old(s)@),
{
    let line = match s.read_line() {
        Ok(line) => line,
        Err(e) => return Err(e),
    };
    if !ends_crlf(line.as_slice()) {
        return Err(refuse(line.as_slice()));
    }
    let content = copy_range(line.as_slice(), 0, line.len() - 2);
    let toks = split_on(content.as_slice(), SP);
    assert(content@ =~= chomp(line@));
    let st = match read_ms_status(&toks) {
        Some(st) => st,
        None => return Err(refuse(line.as_slice())),
    };
    let blank = MsItem {
        success: st.success,
        cas: None,
        key: None,
        opaque: None,
        size: None,
        base64_key: false,
    };
    read_ms_flags(blank, &toks, 1, line.as_slice())
}

/// Reads the reply to a meta delete.
pub fn parse_md_rp(s: &mut Connection) -> (r: Result<MdItem, Error>)
    ensures
        (outcome(r), final(s)@) == md_reply(old(s)@),
{
    let line = match s.read_line() {
        Ok(line) => line,
        Err(e) => return Err(e),
    };
    if !ends_crlf(line.as_slice()) {
        return Err(refuse(line.as_slice()));
    }
    let content = copy_range(line.as_slice(), 0, line.len() - 2);
    let toks = split_on(content.as_slice(), SP);
    assert(content@ =~= chomp(line@));
    let st = match read_md_status(&toks) {
        Some(st) => st,
        None => return Err(refuse(line.as_slice())),
    };
    let blank = MdItem { success: st.success, key: None, opaque: None, base64_key: false };
    read_md_flags(blank, &toks, 1, line.as_slice())
}

/// Reads the reply to a meta arithmetic.
pub fn parse_ma_rp(s: &mut Connection) -> (r: Result<MaItem, Error>)
    ensures
        (outcome(r), final(s)@) == ma_reply(old(s)@),
{
    let line = match s.read_line() {
        Ok(line) => line,
        Err(e) => return Err(e),
    };
    if !ends_crlf(line.as_slice()) {
        return Err(refuse(line.as_slice()));
    }
    let content = copy_range(line.as_slice(), 0, line.len() - 2);
    let toks = split_on(content.as_slice(), SP);
    assert(content@ =~= chomp(line@));
    let st = match read_ma_status(&toks) {
        Some(st) => st,
        None => return Err(refuse(line.as_slice())),
    };
    let blank = MaItem {
        success: st.success,
        opaque: None,
        ttl: None,
        cas: None,
        number: None,
        key: None,
        base64_key: false,
    };
    let first: usize = if st.payload.is_some() {
        2
    } else {
        1
    };
    let mut item = match read_ma_flags(blank, &toks, first, line.as_slice()) {
        Ok(item) => item,
        Err(e) => return Err(e),
    };
    match st.payload {
        None => Ok(item),
        Some(n) => {
            let payload = match s.read_line() {
                Ok(payload) => payload,
                Err(e) => return Err(e),
            };
            let end = if n <= payload.len() {
                n
            } else {
                payload.len()
            };
            let digits = copy_range(payload.as_slice(), 0, end);
            assert(digits@ =~= number_text(payload@, n as nat));
            match parse_u64(digits.as_slice()) {
                Some(v) => {
                    item.number = Some(v);
                    Ok(item)
                },
                None => Err(refuse(payload.as_slice())),
            }
        },
    }
}

} // verus!
