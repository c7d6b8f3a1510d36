//! The arguments that commands take and the values that replies decode to.

use crate::model::Model;
use vstd::prelude::*;

verus! {

/// Which statistics to ask for.
pub enum StatsArg {
    Settings,
    Items,
    Sizes,
    Slabs,
    Conns,
}

/// How eagerly the server moves memory between slab classes.
pub enum SlabsAutomoveArg {
    Zero,
    One,
    Two,
}

/// Switches the background crawler on or off.
pub enum LruCrawlerArg {
    Enable,
    Disable,
}

/// What a crawl covers.
pub enum LruCrawlerCrawlArg<'a> {
    Classids(&'a [usize]),
    All,
}

/// What a dump of item metadata covers.
pub enum LruCrawlerMetadumpArg<'a> {
    Classids(&'a [usize]),
    All,
    Hash,
}

/// What a dump of keys covers.
pub enum LruCrawlerMgdumpArg<'a> {
    Classids(&'a [usize]),
    All,
    Hash,
}

/// A kind of event to watch.
pub enum WatchArg {
    Fetchers,
    Mutations,
    Evictions,
    Connevents,
    Proxyreqs,
    Proxyevents,
    Proxyuser,
    Deletions,
}

/// The layout of the LRU.
pub enum LruMode {
    Flat,
    Segmented,
}

/// A setting of the LRU. The two factors of `Tune` are given as the decimal
/// text that goes on the wire.
pub enum LruArg {
    Tune { percent_hot: u8, percent_warm: u8, max_hot_factor: String, max_warm_factor: String },
    Mode(LruMode),
    TempTtl(i64),
}

/// The mode of a meta set. `Store` is the plain set: it writes whether or
/// not the key exists.
pub enum MsMode {
    Add,
    Append,
    Prepend,
    Replace,
    Store,
}

/// The mode of a meta arithmetic.
pub enum MaMode {
    Incr,
    Decr,
}

/// A flag of a meta set.
pub enum MsFlag {
    Base64Key,
    ReturnCas,
    CompareCas(u64),
    NewCas(u64),
    SetFlags(u32),
    Invalidate,
    ReturnKey,
    Opaque(String),
    ReturnSize,
    Ttl(i64),
    Mode(MsMode),
    Autovivify(i64),
}

/// A flag of a meta get.
pub enum MgFlag {
    Base64Key,
    ReturnCas,
    ReturnFlags,
    ReturnHit,
    ReturnKey,
    ReturnLastAccess,
    Opaque(String),
    ReturnSize,
    ReturnTtl,
    UnBump,
    ReturnValue,
    NewCas(u64),
    Autovivify(i64),
    RecacheTtl(i64),
    UpdateTtl(i64),
}

/// A flag of a meta delete.
pub enum MdFlag {
    Base64Key,
    CompareCas(u64),
    NewCas(u64),
    Invalidate,
    ReturnKey,
    Opaque(String),
    UpdateTtl(i64),
    LeaveKey,
}

/// A flag of a meta arithmetic.
pub enum MaFlag {
    Base64Key,
    CompareCas(u64),
    NewCas(u64),
    AutoCreate(i64),
    InitValue(u64),
    DeltaApply(u64),
    UpdateTtl(i64),
    Mode(MaMode),
    Opaque(String),
    ReturnTtl,
    ReturnCas,
    ReturnValue,
    ReturnKey,
}

/// An entry that a retrieval returned.
#[derive(Debug, PartialEq)]
pub struct Item {
    pub key: String,
    pub flags: u32,
    pub cas_unique: Option<u64>,
    pub data_block: Vec<u8>,
}

/// The model of an `Item`.
pub struct ItemModel {
    pub key: Seq<char>,
    pub flags: u32,
    pub cas_unique: Option<u64>,
    pub data_block: Seq<u8>,
}

impl Model for Item {
    type M = ItemModel;

    open spec fn model(&self) -> ItemModel {
        ItemModel {
            key: self.key@,
            flags: self.flags,
            cas_unique: self.cas_unique,
            data_block: self.data_block@,
        }
    }
}

impl Model for Vec<Item> {
    type M = Seq<ItemModel>;

    open spec fn model(&self) -> Seq<ItemModel> {
        Seq::new(self@.len(), |i: int| self@[i].model())
    }
}

/// The reply to a meta get.
#[derive(Debug, PartialEq)]
pub struct MgItem {
    pub success: bool,
    pub base64_key: bool,
    pub cas: Option<u64>,
    pub flags: Option<u32>,
    pub hit: Option<u8>,
    pub key: Option<String>,
    pub last_access_ttl: Option<i64>,
    pub opaque: Option<String>,
    pub size: Option<usize>,
    pub ttl: Option<i64>,
    pub data_block: Option<Vec<u8>>,
    pub won_recache: bool,
    pub stale: bool,
    pub already_win: bool,
}

/// The model of an `MgItem`.
pub struct MgModel {
    pub success: bool,
    pub base64_key: bool,
    pub cas: Option<u64>,
    pub flags: Option<u32>,
    pub hit: Option<u8>,
    pub key: Option<Seq<char>>,
    pub last_access_ttl: Option<i64>,
    pub opaque: Option<Seq<char>>,
    pub size: Option<usize>,
    pub ttl: Option<i64>,
    pub data_block: Option<Seq<u8>>,
    pub won_recache: bool,
    pub stale: bool,
    pub already_win: bool,
}

impl MgModel {
    /// A reply that holds the status and no field.
    pub open spec fn blank(success: bool) -> MgModel {
        MgModel {
            success,
            base64_key: false,
            cas: None,
            flags: None,
            hit: None,
            key: None,
            last_access_ttl: None,
            opaque: None,
            size: None,
            ttl: None,
            data_block: None,
            won_recache: false,
            stale: false,
            already_win: false,
        }
    }
}

impl Model for MgItem {
    type M = MgModel;

    open spec fn model(&self) -> MgModel {
        MgModel {
            success: self.success,
            base64_key: self.base64_key,
            cas: self.cas,
            flags: self.flags,
            hit: self.hit,
            key: self.key.model(),
            last_access_ttl: self.last_access_ttl,
            opaque: self.opaque.model(),
            size: self.size,
            ttl: self.ttl,
            data_block: self.data_block.model(),
            won_recache: self.won_recache,
            stale: self.stale,
            already_win: self.already_win,
        }
    }
}

/// The reply to a meta set.
#[derive(Debug, PartialEq)]
pub struct MsItem {
    pub success: bool,
    pub cas: Option<u64>,
    pub key: Option<String>,
    pub opaque: Option<String>,
    pub size: Option<usize>,
    pub base64_key: bool,
}

/// The model of an `MsItem`.
pub struct MsModel {
    pub success: bool,
    pub cas: Option<u64>,
    pub key: Option<Seq<char>>,
    pub opaque: Option<Seq<char>>,
    pub size: Option<usize>,
    pub base64_key: bool,
}

impl MsModel {
    /// A reply that holds the status and no field.
    pub open spec fn blank(success: bool) -> MsModel {
        MsModel { success, cas: None, key: None, opaque: None, size: None, base64_key: false }
    }
}

impl Model for MsItem {
    type M = MsModel;

    open spec fn model(&self) -> MsModel {
        MsModel {
            success: self.success,
            cas: self.cas,
            key: self.key.model(),
            opaque: self.opaque.model(),
            size: self.size,
            base64_key: self.base64_key,
        }
    }
}

/// The reply to a meta delete.
#[derive(Debug, PartialEq)]
pub struct MdItem {
    pub success: bool,
    pub key: Option<String>,
    pub opaque: Option<String>,
    pub base64_key: bool,
}

/// The model of an `MdItem`.
pub struct MdModel {
    pub success: bool,
    pub key: Option<Seq<char>>,
    pub opaque: Option<Seq<char>>,
    pub base64_key: bool,
}

impl MdModel {
    /// A reply that holds the status and no field.
    pub open spec fn blank(success: bool) -> MdModel {
        MdModel { success, key: None, opaque: None, base64_key: false }
    }
}

impl Model for MdItem {
    type M = MdModel;

    open spec fn model(&self) -> MdModel {
        MdModel {
            success: self.success,
            key: self.key.model(),
            opaque: self.opaque.model(),
            base64_key: self.base64_key,
        }
    }
}

/// The reply to a meta arithmetic.
#[derive(Debug, PartialEq)]
pub struct MaItem {
    pub success: bool,
    pub opaque: Option<String>,
    pub ttl: Option<i64>,
    pub cas: Option<u64>,
    pub number: Option<u64>,
    pub key: Option<String>,
    pub base64_key: bool,
}

/// The model of an `MaItem`.
pub struct MaModel {
    pub success: bool,
    pub opaque: Option<Seq<char>>,
    pub ttl: Option<i64>,
    pub cas: Option<u64>,
    pub number: Option<u64>,
    pub key: Option<Seq<char>>,
    pub base64_key: bool,
}

impl MaModel {
    /// A reply that holds the status and no field.
    pub open spec fn blank(success: bool) -> MaModel {
        MaModel {
            success,
            opaque: None,
            ttl: None,
            cas: None,
            number: None,
            key: None,
            base64_key: false,
        }
    }
}

impl Model for MaItem {
    type M = MaModel;

    open spec fn model(&self) -> MaModel {
        MaModel {
            success: self.success,
            opaque: self.opaque.model(),
            ttl: self.ttl,
            cas: self.cas,
            number: self.number,
            key: self.key.model(),
            base64_key: self.base64_key,
        }
    }
}

/// What one command of a batch was answered with.
#[derive(Debug, PartialEq)]
pub enum PipelineResponse {
    Bool(bool),
    OptionItem(Option<Item>),
    VecItem(Vec<Item>),
    String(String),
    OptionString(Option<String>),
    VecString(Vec<String>),
    Unit(()),
    Value(Option<u64>),
    HashMap(Vec<(String, String)>),
    MetaGet(MgItem),
    MetaSet(MsItem),
    MetaDelete(MdItem),
    MetaArithmetic(MaItem),
}

/// The model of a `PipelineResponse`.
pub enum Reply {
    Bool(bool),
    OptionItem(Option<ItemModel>),
    VecItem(Seq<ItemModel>),
    String(Seq<char>),
    OptionString(Option<Seq<char>>),
    VecString(Seq<Seq<char>>),
    Unit,
    Value(Option<u64>),
    HashMap(Seq<(Seq<char>, Seq<char>)>),
    MetaGet(MgModel),
    MetaSet(MsModel),
    MetaDelete(MdModel),
    MetaArithmetic(MaModel),
}

impl Model for PipelineResponse {
    type M = Reply;

    open spec fn model(&self) -> Reply {
        match self {
            PipelineResponse::Bool(x) => Reply::Bool(*x),
            PipelineResponse::OptionItem(x) => Reply::OptionItem(x.model()),
            PipelineResponse::VecItem(x) => Reply::VecItem(x.model()),
            PipelineResponse::String(x) => Reply::String(x@),
            PipelineResponse::OptionString(x) => Reply::OptionString(x.model()),
            PipelineResponse::VecString(x) => Reply::VecString(x.model()),
            PipelineResponse::Unit(_) => Reply::Unit,
            PipelineResponse::Value(x) => Reply::Value(*x),
            PipelineResponse::HashMap(x) => Reply::HashMap(x.model()),
            PipelineResponse::MetaGet(x) => Reply::MetaGet(x.model()),
            PipelineResponse::MetaSet(x) => Reply::MetaSet(x.model()),
            PipelineResponse::MetaDelete(x) => Reply::MetaDelete(x.model()),
            PipelineResponse::MetaArithmetic(x) => Reply::MetaArithmetic(x.model()),
        }
    }
}

impl Model for Vec<PipelineResponse> {
    type M = Seq<Reply>;

    open spec fn model(&self) -> Seq<Reply> {
        Seq::new(self@.len(), |i: int| self@[i].model())
    }
}

} // verus!
