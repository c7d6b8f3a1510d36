//! Batches of commands: which reply each command of a batch calls for, and
//! how the replies of a whole batch are read in order.

use crate::decode::auth_reply;
use crate::decode::delete_reply;
use crate::decode::incr_decr_reply;
use crate::decode::last_item;
use crate::decode::me_reply;
use crate::decode::metadump_reply;
use crate::decode::mgdump_reply;
use crate::decode::mn_reply;
use crate::decode::ok_reply;
use crate::decode::parse_auth_rp;
use crate::decode::parse_delete_rp;
use crate::decode::parse_incr_decr_rp;
use crate::decode::parse_lru_crawler_metadump_rp;
use crate::decode::parse_lru_crawler_mgdump_rp;
use crate::decode::parse_me_rp;
use crate::decode::parse_mn_rp;
use crate::decode::parse_ok_rp;
use crate::decode::parse_retrieval_rp;
use crate::decode::parse_stats_rp;
use crate::decode::parse_storage_rp;
use crate::decode::parse_touch_rp;
use crate::decode::parse_version_rp;
use crate::decode::retrieval_reply;
use crate::decode::stats_reply;
use crate::decode::storage_reply;
use crate::decode::take_last;
use crate::decode::touch_reply;
use crate::decode::version_reply;
use crate::meta::ma_reply;
use crate::meta::md_reply;
use crate::meta::mg_reply;
use crate::meta::ms_reply;
use crate::meta::parse_ma_rp;
use crate::meta::parse_md_rp;
use crate::meta::parse_mg_rp;
use crate::meta::parse_ms_rp;
use crate::model::outcome;
use crate::model::Error;
use crate::model::Fault;
use crate::model::Model;
use crate::stream::Connection;
use crate::stream::Wire;
use crate::text::b;
use crate::text::copy_range;
use crate::text::ends_with;
use crate::text::find_from;
use crate::text::first_sep;
use crate::text::push_bytes;
use crate::text::same;
use crate::text::starts_with;
use crate::text::views;
use crate::text::CR;
use crate::text::SP;
use crate::types::ItemModel;
use crate::types::MaModel;
use crate::types::MdModel;
use crate::types::MgModel;
use crate::types::MsModel;
use crate::types::PipelineResponse;
use crate::types::Reply;
use vstd::prelude::*;

verus! {

/// The reply that a command calls for.
pub enum Shape {
    /// The entries of a retrieval of one key: the last of them, if any.
    OptionItem,
    /// The entries of a retrieval of several keys.
    VecItem,
    /// The status of an authentication.
    Auth,
    /// The status of a storage command.
    Storage { noreply: bool },
    /// The version of the server.
    Version,
    /// The status of a deletion.
    Delete { noreply: bool },
    /// The number after an increment or a decrement.
    Value { noreply: bool },
    /// The status of a touch.
    Touch { noreply: bool },
    /// No reply at all: the server closes the stream.
    Nothing,
    /// The line `OK`.
    Done { noreply: bool },
    /// The line `MN`.
    Mn,
    /// Lines of statistics.
    Stats,
    /// A dump of item metadata.
    Metadump,
    /// A dump of keys.
    Mgdump,
    /// The reply to a meta get.
    MetaGet,
    /// The reply to a meta set.
    MetaSet,
    /// The reply to a meta delete.
    MetaDelete,
    /// The reply to a meta arithmetic.
    MetaArithmetic,
    /// The reply to `me`.
    Me,
    /// The command is none that a batch can hold.
    Unknown,
}

/// How often a byte occurs.
pub open spec fn count(s: Seq<u8>, x: u8) -> nat
    decreases s.len(),
{
    if s.len() == 0 {
        0
    } else {
        count(s.drop_last(), x) + if s.last() == x {
            1nat
        } else {
            0nat
        }
    }
}

/// The first line of a command, without its terminator.
pub open spec fn first_line(cmd: Seq<u8>) -> Seq<u8> {
    cmd.take(first_sep(cmd, CR))
}

/// Whether a command begins with the verb of a retrieval.
pub open spec fn is_retrieval(cmd: Seq<u8>) -> bool {
    b("gets ").is_prefix_of(cmd) || b("get ").is_prefix_of(cmd) || b("gats ").is_prefix_of(cmd)
        || b("gat ").is_prefix_of(cmd)
}

/// Whether a retrieval names one key: one space in a `get` or `gets`, two in
/// a `gat` or `gats`.
pub open spec fn is_single_key(cmd: Seq<u8>) -> bool {
    (b("gat").is_prefix_of(cmd) && count(cmd, SP) == 2) || (b("get").is_prefix_of(cmd) && count(
        cmd,
        SP,
    ) == 1)
}

/// Whether a command begins with the verb of a storage command.
pub open spec fn is_storage(cmd: Seq<u8>) -> bool {
    b("set ").is_prefix_of(cmd) || b("add ").is_prefix_of(cmd) || b("replace ").is_prefix_of(cmd)
        || b("append ").is_prefix_of(cmd) || b("prepend ").is_prefix_of(cmd) || b(
        "cas ",
    ).is_prefix_of(cmd)
}

/// Whether a command is one of those that `OK` answers and that cannot ask
/// for silence.
pub open spec fn is_plain_admin(cmd: Seq<u8>) -> bool {
    b("slabs automove ").is_prefix_of(cmd) || b("slabs reassign ").is_prefix_of(cmd) || b(
        "lru_crawler sleep ",
    ).is_prefix_of(cmd) || b("lru_crawler crawl ").is_prefix_of(cmd) || b(
        "lru_crawler tocrawl ",
    ).is_prefix_of(cmd) || cmd == b("lru_crawler enable\r\n") || cmd == b(
        "lru_crawler disable\r\n",
    )
}

/// The reply that a command calls for, read off the bytes of the command as
/// they were sent. The tests are made in this order, and the first that
/// holds decides.
pub open spec fn shape_of(cmd: Seq<u8>) -> Shape {
    let silent = b("noreply\r\n").is_suffix_of(cmd);
    if is_retrieval(cmd) {
        if is_single_key(cmd) {
            Shape::OptionItem
        } else {
            Shape::VecItem
        }
    } else if b("set _ _ _ ").is_prefix_of(cmd) {
        Shape::Auth
    } else if is_storage(cmd) {
        Shape::Storage { noreply: b("noreply").is_suffix_of(first_line(cmd)) }
    } else if cmd == b("version\r\n") {
        Shape::Version
    } else if b("delete ").is_prefix_of(cmd) {
        Shape::Delete { noreply: silent }
    } else if b("incr ").is_prefix_of(cmd) || b("decr ").is_prefix_of(cmd) {
        Shape::Value { noreply: silent }
    } else if b("touch ").is_prefix_of(cmd) {
        Shape::Touch { noreply: silent }
    } else if cmd == b("quit\r\n") || b("shutdown").is_prefix_of(cmd) {
        Shape::Nothing
    } else if b("flush_all").is_prefix_of(cmd) || b("cache_memlimit ").is_prefix_of(cmd) {
        Shape::Done { noreply: silent }
    } else if is_plain_admin(cmd) {
        Shape::Done { noreply: false }
    } else if cmd == b("mn\r\n") {
        Shape::Mn
    } else if b("stats").is_prefix_of(cmd) {
        Shape::Stats
    } else if b("lru_crawler metadump ").is_prefix_of(cmd) {
        Shape::Metadump
    } else if b("lru_crawler mgdump ").is_prefix_of(cmd) {
        Shape::Mgdump
    } else if b("mg ").is_prefix_of(cmd) {
        Shape::MetaGet
    } else if b("ms ").is_prefix_of(cmd) {
        Shape::MetaSet
    } else if b("md ").is_prefix_of(cmd) {
        Shape::MetaDelete
    } else if b("ma ").is_prefix_of(cmd) {
        Shape::MetaArithmetic
    } else if b("lru ").is_prefix_of(cmd) {
        Shape::Done { noreply: false }
    } else if b("me ").is_prefix_of(cmd) {
        Shape::Me
    } else {
        Shape::Unknown
    }
}

/// A reply wrapped as a response of a batch.
pub open spec fn wrap<T>(r: (Result<T, Fault>, Wire), f: spec_fn(T) -> Reply) -> (
    Result<Reply, Fault>,
    Wire,
) {
    match r.0 {
        Ok(x) => (Ok(f(x)), r.1),
        Err(e) => (Err(e), r.1),
    }
}

/// The reply of a given shape, as a response of a batch. A command that no
/// decoder is known for fails with the command, and nothing is read.
pub open spec fn shaped_response(w: Wire, shape: Shape, cmd: Seq<u8>) -> (
    Result<Reply, Fault>,
    Wire,
) {
    match shape {
        Shape::OptionItem => wrap(
            retrieval_reply(w),
            |x: Seq<ItemModel>| Reply::OptionItem(last_item(x)),
        ),
        Shape::VecItem => wrap(retrieval_reply(w), |x: Seq<ItemModel>| Reply::VecItem(x)),
        Shape::Auth => wrap(auth_reply(w), |x: ()| Reply::Unit),
        Shape::Storage { noreply } => wrap(storage_reply(w, noreply), |x: bool| Reply::Bool(x)),
        Shape::Version => wrap(version_reply(w), |x: Seq<char>| Reply::String(x)),
        Shape::Delete { noreply } => wrap(delete_reply(w, noreply), |x: bool| Reply::Bool(x)),
        Shape::Value { noreply } => wrap(
            incr_decr_reply(w, noreply),
            |x: Option<u64>| Reply::Value(x),
        ),
        Shape::Touch { noreply } => wrap(touch_reply(w, noreply), |x: bool| Reply::Bool(x)),
        Shape::Nothing => (Ok(Reply::Unit), w),
        Shape::Done { noreply } => wrap(ok_reply(w, noreply), |x: ()| Reply::Unit),
        Shape::Mn => wrap(mn_reply(w), |x: ()| Reply::Unit),
        Shape::Stats => wrap(
            stats_reply(w),
            |x: Seq<(Seq<char>, Seq<char>)>| Reply::HashMap(x),
        ),
        Shape::Metadump => wrap(metadump_reply(w), |x: Seq<Seq<char>>| Reply::VecString(x)),
        Shape::Mgdump => wrap(mgdump_reply(w), |x: Seq<Seq<char>>| Reply::VecString(x)),
        Shape::MetaGet => wrap(mg_reply(w), |x: MgModel| Reply::MetaGet(x)),
        Shape::MetaSet => wrap(ms_reply(w), |x: MsModel| Reply::MetaSet(x)),
        Shape::MetaDelete => wrap(md_reply(w), |x: MdModel| Reply::MetaDelete(x)),
        Shape::MetaArithmetic => wrap(
            ma_reply(w),
            |x: MaModel| Reply::MetaArithmetic(x),
        ),
        Shape::Me => wrap(me_reply(w), |x: Option<Seq<char>>| Reply::OptionString(x)),
        Shape::Unknown => (Err(Fault::UnknownCommand(cmd)), w),
    }
}

/// The response to one command of a batch, read with the decoder that the
/// bytes of the command call for.
#[verifier::opaque]
pub open spec fn response(w: Wire, cmd: Seq<u8>) -> (Result<Reply, Fault>, Wire) {
    shaped_response(w, shape_of(cmd), cmd)
}

/// The responses to a batch, from a command on: one for each command, in the
/// order of the commands. The first reply that fails ends the batch with its
/// error, and what was read before it is dropped.
pub open spec fn responses_from(w: Wire, cmds: Seq<Seq<u8>>, acc: Seq<Reply>) -> (
    Result<Seq<Reply>, Fault>,
    Wire,
)
    decreases cmds.len(),
{
    if cmds.len() == 0 {
        (Ok(acc), w)
    } else {
        match response(w, cmds[0]) {
            (Ok(r), w1) => responses_from(w1, cmds.skip(1), acc.push(r)),
            (Err(f), w1) => (Err(f), w1),
        }
    }
}

/// The responses to a batch.
pub open spec fn responses(w: Wire, cmds: Seq<Seq<u8>>) -> (Result<Seq<Reply>, Fault>, Wire) {
    responses_from(w, cmds, Seq::empty())
}

/// The commands of a batch, one after the other.
pub open spec fn concat(cmds: Seq<Seq<u8>>) -> Seq<u8>
    decreases cmds.len(),
{
    if cmds.len() == 0 {
        Seq::empty()
    } else {
        concat(cmds.drop_last()) + cmds.last()
    }
}

/// A batch as an exchange: every command is written, then every response is
/// read.
pub open spec fn execute_exchange(w: Wire, cmds: Seq<Seq<u8>>) -> (
    Result<Seq<Reply>, Fault>,
    Wire,
) {
    responses(w.write_all(concat(cmds)), cmds)
}

/// Counts how often a byte occurs.
pub fn count_byte(s: &[u8], x: u8) -> (r: usize)
    ensures
        r == count(s@, x),
{
    let mut n: usize = 0;
    let mut i: usize = 0;
    assert(s@.take(0) =~= Seq::<u8>::empty());
    while i < s.len()
        invariant
            0 <= i <= s@.len(),
            n == count(s@.take(i as int), x),
            n <= i,
        decreases s@.len() - i,
    {
        proof {
            let t = s@.take(i + 1);
            assert(t.drop_last() =~= s@.take(i as int));
            assert(t.last() == s@[i as int]);
        }
        if s[i] == x {
            n += 1;
        }
        i += 1;
    }
    assert(s@.take(s@.len() as int) =~= s@);
    n
}

fn starts_retrieval(cmd: &[u8]) -> (r: bool)
    ensures
        r == is_retrieval(cmd@),
{
    starts_with(cmd, "gets ".as_bytes()) || starts_with(cmd, "get ".as_bytes()) || starts_with(
        cmd,
        "gats ".as_bytes(),
    ) || starts_with(cmd, "gat ".as_bytes())
}

fn names_single_key(cmd: &[u8]) -> (r: bool)
    ensures
        r == is_single_key(cmd@),
{
    let spaces = count_byte(cmd, SP);
    (starts_with(cmd, "gat".as_bytes()) && spaces == 2) || (starts_with(cmd, "get".as_bytes())
        && spaces == 1)
}

fn starts_storage(cmd: &[u8]) -> (r: bool)
    ensures
        r == is_storage(cmd@),
{
    starts_with(cmd, "set ".as_bytes()) || starts_with(cmd, "add ".as_bytes()) || starts_with(
        cmd,
        "replace ".as_bytes(),
    ) || starts_with(cmd, "append ".as_bytes()) || starts_with(cmd, "prepend ".as_bytes())
        || starts_with(cmd, "cas ".as_bytes())
}

fn plain_admin(cmd: &[u8]) -> (r: bool)
    ensures
        r == is_plain_admin(cmd@),
{
    starts_with(cmd, "slabs automove ".as_bytes()) || starts_with(
        cmd,
        "slabs reassign ".as_bytes(),
    ) || starts_with(cmd, "lru_crawler sleep ".as_bytes()) || starts_with(
        cmd,
        "lru_crawler crawl ".as_bytes(),
    ) || starts_with(cmd, "lru_crawler tocrawl ".as_bytes()) || same(
        cmd,
        "lru_crawler enable\r\n".as_bytes(),
    ) || same(cmd, "lru_crawler disable\r\n".as_bytes())
}

/// Tells from the bytes of a command which reply it calls for.
pub fn classify(cmd: &[u8]) -> (r: Shape)
    ensures
        r == shape_of(cmd@),
{
    let silent = ends_with(cmd, "noreply\r\n".as_bytes());
    if starts_retrieval(cmd) {
        if names_single_key(cmd) {
            Shape::OptionItem
        } else {
            Shape::VecItem
        }
    } else if starts_with(cmd, "set _ _ _ ".as_bytes()) {
        Shape::Auth
    } else if starts_storage(cmd) {
        let e = find_from(cmd, 0, CR);
        let line = copy_range(cmd, 0, e);
        proof {
            assert(cmd@.skip(0) =~= cmd@);
            assert(line@ =~= first_line(cmd@));
        }
        Shape::Storage { noreply: ends_with(line.as_slice(), "noreply".as_bytes()) }
    } else if same(cmd, "version\r\n".as_bytes()) {
        Shape::Version
    } else if starts_with(cmd, "delete ".as_bytes()) {
        Shape::Delete { noreply: silent }
    } else if starts_with(cmd, "incr ".as_bytes()) || starts_with(cmd, "decr ".as_bytes()) {
        Shape::Value { noreply: silent }
    } else if starts_with(cmd, "touch ".as_bytes()) {
        Shape::Touch { noreply: silent }
    } else if same(cmd, "quit\r\n".as_bytes()) || starts_with(cmd, "shutdown".as_bytes()) {
        Shape::Nothing
    } else if starts_with(cmd, "flush_all".as_bytes()) || starts_with(
        cmd,
        "cache_memlimit ".as_bytes(),
    ) {
        Shape::Done { noreply: silent }
    } else if plain_admin(cmd) {
        Shape::Done { noreply: false }
    } else if same(cmd, "mn\r\n".as_bytes()) {
        Shape::Mn
    } else if starts_with(cmd, "stats".as_bytes()) {
        Shape::Stats
    } else if starts_with(cmd, "lru_crawler metadump ".as_bytes()) {
        Shape::Metadump
    } else if starts_with(cmd, "lru_crawler mgdump ".as_bytes()) {
        Shape::Mgdump
    } else if starts_with(cmd, "mg ".as_bytes()) {
        Shape::MetaGet
    } else if starts_with(cmd, "ms ".as_bytes()) {
        Shape::MetaSet
    } else if starts_with(cmd, "md ".as_bytes()) {
        Shape::MetaDelete
    } else if starts_with(cmd, "ma ".as_bytes()) {
        Shape::MetaArithmetic
    } else if starts_with(cmd, "lru ".as_bytes()) {
        Shape::Done { noreply: false }
    } else if starts_with(cmd, "me ".as_bytes()) {
        Shape::Me
    } else {
        Shape::Unknown
    }
}

/// Reads the response to one command of a batch.
pub fn parse_response_rp(s: &mut Connection, cmd: &[u8]) -> (r: Result<PipelineResponse, Error>)
    ensures
        (outcome(r), final(s)@) == response(old(s)@, cmd@),
{
    reveal(response);
    match classify(cmd) {
        Shape::OptionItem => match parse_retrieval_rp(s) {
            Ok(x) => Ok(PipelineResponse::OptionItem(take_last(x))),
            Err(e) => Err(e),
        },
        Shape::VecItem => match parse_retrieval_rp(s) {
            Ok(x) => Ok(PipelineResponse::VecItem(x)),
            Err(e) => Err(e),
        },
        Shape::Auth => match parse_auth_rp(s) {
            Ok(x) => Ok(PipelineResponse::Unit(x)),
            Err(e) => Err(e),
        },
        Shape::Storage { noreply } => match parse_storage_rp(s, noreply) {
            Ok(x) => Ok(PipelineResponse::Bool(x)),
            Err(e) => Err(e),
        },
        Shape::Version => match parse_version_rp(s) {
            Ok(x) => Ok(PipelineResponse::String(x)),
            Err(e) => Err(e),
        },
        Shape::Delete { noreply } => match parse_delete_rp(s, noreply) {
            Ok(x) => Ok(PipelineResponse::Bool(x)),
            Err(e) => Err(e),
        },
        Shape::Value { noreply } => match parse_incr_decr_rp(s, noreply) {
            Ok(x) => Ok(PipelineResponse::Value(x)),
            Err(e) => Err(e),
        },
        Shape::Touch { noreply } => match parse_touch_rp(s, noreply) {
            Ok(x) => Ok(PipelineResponse::Bool(x)),
            Err(e) => Err(e),
        },
        Shape::Nothing => Ok(PipelineResponse::Unit(())),
        Shape::Done { noreply } => match parse_ok_rp(s, noreply) {
            Ok(x) => Ok(PipelineResponse::Unit(x)),
            Err(e) => Err(e),
        },
        Shape::Mn => match parse_mn_rp(s) {
            Ok(x) => Ok(PipelineResponse::Unit(x)),
            Err(e) => Err(e),
        },
        Shape::Stats => match parse_stats_rp(s) {
            Ok(x) => Ok(PipelineResponse::HashMap(x)),
            Err(e) => Err(e),
        },
        Shape::Metadump => match parse_lru_crawler_metadump_rp(s) {
            Ok(x) => Ok(PipelineResponse::VecString(x)),
            Err(e) => Err(e),
        },
        Shape::Mgdump => match parse_lru_crawler_mgdump_rp(s) {
            Ok(x) => Ok(PipelineResponse::VecString(x)),
            Err(e) => Err(e),
        },
        Shape::MetaGet => match parse_mg_rp(s) {
            Ok(x) => Ok(PipelineResponse::MetaGet(x)),
            Err(e) => Err(e),
        },
        Shape::MetaSet => match parse_ms_rp(s) {
            Ok(x) => Ok(PipelineResponse::MetaSet(x)),
            Err(e) => Err(e),
        },
        Shape::MetaDelete => match parse_md_rp(s) {
            Ok(x) => Ok(PipelineResponse::MetaDelete(x)),
            Err(e) => Err(e),
        },
        Shape::MetaArithmetic => match parse_ma_rp(s) {
            Ok(x) => Ok(PipelineResponse::MetaArithmetic(x)),
            Err(e) => Err(e),
        },
        Shape::Me => match parse_me_rp(s) {
            Ok(x) => Ok(PipelineResponse::OptionString(x)),
            Err(e) => Err(e),
        },
        Shape::Unknown => {
            let copy = copy_range(cmd, 0, cmd.len());
            assert(copy@ =~= cmd@);
            Err(Error::UnknownCommand(copy))
        },
    }
}

/// Reads the responses to a batch.
pub fn parse_pipeline_rp(s: &mut Connection, cmds: &[Vec<u8>]) -> (r: Result<
    Vec<PipelineResponse>,
    Error,
>)
    ensures
        (outcome(r), final(s)@) == responses(old(s)@, views(cmds@)),
{
    let mut result: Vec<PipelineResponse> = Vec::new();
    let mut i: usize = 0;
    proof {
        assert(result.model() =~= Seq::<Reply>::empty());
        assert(views(cmds@).skip(0) =~= views(cmds@));
    }
    while i < cmds.len()
        invariant
            0 <= i <= cmds@.len(),
            responses_from(s@, views(cmds@).skip(i as int), result.model()) == responses(
                old(s)@,
                views(cmds@),
            ),
        decreases cmds@.len() - i,
    {
        let ghost acc = result.model();
        proof {
            let rest = views(cmds@).skip(i as int);
            assert(rest.len() > 0);
            assert(rest[0] == cmds@[i as int]@);
            assert(rest.skip(1) =~= views(cmds@).skip(i + 1));
        }
        match parse_response_rp(s, cmds[i].as_slice()) {
            Ok(x) => {
                let ghost xm = x.model();
                result.push(x);
                assert(result.model() =~= acc.push(xm));
            },
            Err(e) => {
                return Err(e);
            },
        }
        i += 1;
    }
    Ok(result)
}

/// Joins the commands of a batch.
pub fn build_pipeline_cmd(cmds: &[Vec<u8>]) -> (r: Vec<u8>)
    ensures
        r@ == concat(views(cmds@)),
{
    let mut w: Vec<u8> = Vec::new();
    let mut i: usize = 0;
    assert(concat(views(cmds@).take(0)) =~= Seq::<u8>::empty());
    while i < cmds.len()
        invariant
            0 <= i <= cmds@.len(),
            w@ == concat(views(cmds@).take(i as int)),
        decreases cmds@.len() - i,
    {
        push_bytes(&mut w, cmds[i].as_slice());
        proof {
            let t = views(cmds@).take(i + 1);
            assert(t.drop_last() =~= views(cmds@).take(i as int));
            assert(t.last() == cmds@[i as int]@);
        }
        i += 1;
    }
    assert(views(cmds@).take(cmds@.len() as int) =~= views(cmds@));
    w
}

/// Sends a batch and reads its responses.
pub fn execute_cmd(s: &mut Connection, cmds: &[Vec<u8>]) -> (r: Result<
    Vec<PipelineResponse>,
    Error,
>)
    ensures
        (outcome(r), final(s)@) == execute_exchange(old(s)@, views(cmds@)),
{
    let all = build_pipeline_cmd(cmds);
    s.write_all(all.as_slice());
    parse_pipeline_rp(s, cmds)
}

} // verus!
