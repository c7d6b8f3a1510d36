//! Keys spread over several connections by their CRC32.

use crate::commands::delete_exchange;
use crate::commands::incr_decr_exchange;
use crate::commands::ma_exchange;
use crate::commands::md_exchange;
use crate::commands::me_exchange;
use crate::commands::mg_exchange;
use crate::commands::ms_exchange;
use crate::commands::single_exchange;
use crate::commands::storage_exchange;
use crate::commands::touch_exchange;
use crate::model::outcome;
use crate::model::Error;
use crate::stream::Connection;
use crate::stream::Wire;
use crate::text::b;
use crate::types::Item;
use crate::types::MaFlag;
use crate::types::MaItem;
use crate::types::MdFlag;
use crate::types::MdItem;
use crate::types::MgFlag;
use crate::types::MgItem;
use crate::types::MsFlag;
use crate::types::MsItem;
use vstd::prelude::*;

verus! {

/// The checksum of a byte string: what `crc32fast::hash` returns for it.
pub uninterp spec fn crc32(bytes: Seq<u8>) -> u32;

/// `crc32fast::hash`. Believed, not proved: what it returns depends on the
/// bytes alone, so that the same bytes always give the same checksum. That
/// the checksum is the CRC32 of the bytes is not stated.
pub assume_specification[ crc32fast::hash ](buf: &[u8]) -> (r: u32)
    ensures
        r == crc32(buf@),
;

/// The connection that a key belongs to, among `size` of them: the CRC32 of
/// the key, modulo their number.
pub open spec fn shard_of(key: Seq<u8>, size: nat) -> int
    recommends
        size > 0,
{
    (crc32(key) as int) % (size as int)
}

/// Picks the connection for a key.
pub fn route(key: &[u8], size: usize) -> (r: usize)
    requires
        size > 0,
    ensures
        r == shard_of(key@, size as nat),
        r < size,
{
    (crc32fast::hash(key) as usize) % size
}

/// A client over a fixed list of connections. Every command goes to the
/// connection that the CRC32 of its key picks, and to no other.
pub struct ClientCrc32(pub Vec<Connection>);

impl ClientCrc32 {
    /// The states of the connections, in order.
    pub open spec fn wires(self) -> Seq<Wire> {
        Seq::new(self.0@.len(), |i: int| self.0@[i]@)
    }

    /// A client over `conns`. The commands need at least one connection.
    pub fn new(conns: Vec<Connection>) -> (r: Self)
        ensures
            r.0 == conns,
    {
        ClientCrc32(conns)
    }

    /// The index of the connection that a key belongs to.
    pub fn route(&self, key: &[u8]) -> (r: usize)
        requires
            self.wires().len() > 0,
        ensures
            r == shard_of(key@, self.wires().len()),
            r < self.wires().len(),
    {
        route(key, self.0.len())
    }

    /// Stores data under a key.
    pub fn set(
        &mut self,
        key: &[u8],
        flags: u32,
        exptime: i64,
        noreply: bool,
        data_block: &[u8],
    ) -> (r: Result<bool, Error>)
        requires
            old(self).wires().len() > 0,
        ensures
            ({
                let ws = old(self).wires();
                let i = shard_of(key@, ws.len());
                let (res, after) = storage_exchange(
                    ws[i],
                    b("set"),
                    key@,
                    flags,
                    exptime,
                    None,
                    noreply,
                    data_block@,
                );
                outcome(r) == res && final(self).wires() == ws.update(i, after)
            }),
    {
        let i = route(key, self.0.len());
        let r = self.0[i].set(key, flags, exptime, noreply, data_block);
        assert(self.wires() =~= old(self).wires().update(i as int, self.0@[i as int]@));
        r
    }

    /// Stores data under a key that does not exist yet.
    pub fn add(
        &mut self,
        key: &[u8],
        flags: u32,
        exptime: i64,
        noreply: bool,
        data_block: &[u8],
    ) -> (r: Result<bool, Error>)
        requires
            old(self).wires().len() > 0,
        ensures
            ({
                let ws = old(self).wires();
                let i = shard_of(key@, ws.len());
                let (res, after) = storage_exchange(
                    ws[i],
                    b("add"),
                    key@,
                    flags,
                    exptime,
                    None,
                    noreply,
                    data_block@,
                );
                outcome(r) == res && final(self).wires() == ws.update(i, after)
            }),
    {
        let i = route(key, self.0.len());
        let r = self.0[i].add(key, flags, exptime, noreply, data_block);
        assert(self.wires() =~= old(self).wires().update(i as int, self.0@[i as int]@));
        r
    }

    /// Stores data under a key that exists.
    pub fn replace(
        &mut self,
        key: &[u8],
        flags: u32,
        exptime: i64,
        noreply: bool,
        data_block: &[u8],
    ) -> (r: Result<bool, Error>)
        requires
            old(self).wires().len() > 0,
        ensures
            ({
                let ws = old(self).wires();
                let i = shard_of(key@, ws.len());
                let (res, after) = storage_exchange(
                    ws[i],
                    b("replace"),
                    key@,
                    flags,
                    exptime,
                    None,
                    noreply,
                    data_block@,
                );
                outcome(r) == res && final(self).wires() == ws.update(i, after)
            }),
    {
        let i = route(key, self.0.len());
        let r = self.0[i].replace(key, flags, exptime, noreply, data_block);
        assert(self.wires() =~= old(self).wires().update(i as int, self.0@[i as int]@));
        r
    }

    /// Adds data behind the data of a key.
    pub fn append(
        &mut self,
        key: &[u8],
        flags: u32,
        exptime: i64,
        noreply: bool,
        data_block: &[u8],
    ) -> (r: Result<bool, Error>)
        requires
            old(self).wires().len() > 0,
        ensures
            ({
                let ws = old(self).wires();
                let i = shard_of(key@, ws.len());
                let (res, after) = storage_exchange(
                    ws[i],
                    b("append"),
                    key@,
                    flags,
                    exptime,
                    None,
                    noreply,
                    data_block@,
                );
                outcome(r) == res && final(self).wires() == ws.update(i, after)
            }),
    {
        let i = route(key, self.0.len());
        let r = self.0[i].append(key, flags, exptime, noreply, data_block);
        assert(self.wires() =~= old(self).wires().update(i as int, self.0@[i as int]@));
        r
    }

    /// Adds data before the data of a key.
    pub fn prepend(
        &mut self,
        key: &[u8],
        flags: u32,
        exptime: i64,
        noreply: bool,
        data_block: &[u8],
    ) -> (r: Result<bool, Error>)
        requires
            old(self).wires().len() > 0,
        ensures
            ({
                let ws = old(self).wires();
                let i = shard_of(key@, ws.len());
                let (res, after) = storage_exchange(
                    ws[i],
                    b("prepend"),
                    key@,
                    flags,
                    exptime,
                    None,
                    noreply,
                    data_block@,
                );
                outcome(r) == res && final(self).wires() == ws.update(i, after)
            }),
    {
        let i = route(key, self.0.len());
        let r = self.0[i].prepend(key, flags, exptime, noreply, data_block);
        assert(self.wires() =~= old(self).wires().update(i as int, self.0@[i as int]@));
        r
    }

    /// Stores data under a key if its CAS token is still the one given.
    pub fn cas(
        &mut self,
        key: &[u8],
        flags: u32,
        exptime: i64,
        cas_unique: u64,
        noreply: bool,
        data_block: &[u8],
    ) -> (r: Result<bool, Error>)
        requires
            old(self).wires().len() > 0,
        ensures
            ({
                let ws = old(self).wires();
                let i = shard_of(key@, ws.len());
                let (res, after) = storage_exchange(
                    ws[i],
                    b("cas"),
                    key@,
                    flags,
                    exptime,
                    Some(cas_unique),
                    noreply,
                    data_block@,
                );
                outcome(r) == res && final(self).wires() == ws.update(i, after)
            }),
    {
        let i = route(key, self.0.len());
        let r = self.0[i].cas(key, flags, exptime, cas_unique, noreply, data_block);
        assert(self.wires() =~= old(self).wires().update(i as int, self.0@[i as int]@));
        r
    }

    /// Deletes a key.
    pub fn delete(&mut self, key: &[u8], noreply: bool) -> (r: Result<bool, Error>)
        requires
            old(self).wires().len() > 0,
        ensures
            ({
                let ws = old(self).wires();
                let i = shard_of(key@, ws.len());
                let (res, after) = delete_exchange(ws[i], key@, noreply);
                outcome(r) == res && final(self).wires() == ws.update(i, after)
            }),
    {
        let i = route(key, self.0.len());
        let r = self.0[i].delete(key, noreply);
        assert(self.wires() =~= old(self).wires().update(i as int, self.0@[i as int]@));
        r
    }

    /// Adds to the number under a key.
    pub fn incr(&mut self, key: &[u8], value: u64, noreply: bool) -> (r: Result<Option<u64>, Error>)
        requires
            old(self).wires().len() > 0,
        ensures
            ({
                let ws = old(self).wires();
                let i = shard_of(key@, ws.len());
                let (res, after) = incr_decr_exchange(ws[i], b("incr"), key@, value, noreply);
                outcome(r) == res && final(self).wires() == ws.update(i, after)
            }),
    {
        let i = route(key, self.0.len());
        let r = self.0[i].incr(key, value, noreply);
        assert(self.wires() =~= old(self).wires().update(i as int, self.0@[i as int]@));
        r
    }

    /// Takes from the number under a key.
    pub fn decr(&mut self, key: &[u8], value: u64, noreply: bool) -> (r: Result<Option<u64>, Error>)
        requires
            old(self).wires().len() > 0,
        ensures
            ({
                let ws = old(self).wires();
                let i = shard_of(key@, ws.len());
                let (res, after) = incr_decr_exchange(ws[i], b("decr"), key@, value, noreply);
                outcome(r) == res && final(self).wires() == ws.update(i, after)
            }),
    {
        let i = route(key, self.0.len());
        let r = self.0[i].decr(key, value, noreply);
        assert(self.wires() =~= old(self).wires().update(i as int, self.0@[i as int]@));
        r
    }

    /// Sets the expiry of a key.
    pub fn touch(&mut self, key: &[u8], exptime: i64, noreply: bool) -> (r: Result<bool, Error>)
        requires
            old(self).wires().len() > 0,
        ensures
            ({
                let ws = old(self).wires();
                let i = shard_of(key@, ws.len());
                let (res, after) = touch_exchange(ws[i], key@, exptime, noreply);
                outcome(r) == res && final(self).wires() == ws.update(i, after)
            }),
    {
        let i = route(key, self.0.len());
        let r = self.0[i].touch(key, exptime, noreply);
        assert(self.wires() =~= old(self).wires().update(i as int, self.0@[i as int]@));
        r
    }

    /// Fetches the entry under a key.
    pub fn get(&mut self, key: &[u8]) -> (r: Result<Option<Item>, Error>)
        requires
            old(self).wires().len() > 0,
        ensures
            ({
                let ws = old(self).wires();
                let i = shard_of(key@, ws.len());
                let (res, after) = single_exchange(ws[i], b("get"), None, key@);
                outcome(r) == res && final(self).wires() == ws.update(i, after)
            }),
    {
        let i = route(key, self.0.len());
        let r = self.0[i].get(key);
        assert(self.wires() =~= old(self).wires().update(i as int, self.0@[i as int]@));
        r
    }

    /// Fetches the entry under a key, with its CAS token.
    pub fn gets(&mut self, key: &[u8]) -> (r: Result<Option<Item>, Error>)
        requires
            old(self).wires().len() > 0,
        ensures
            ({
                let ws = old(self).wires();
                let i = shard_of(key@, ws.len());
                let (res, after) = single_exchange(ws[i], b("gets"), None, key@);
                outcome(r) == res && final(self).wires() == ws.update(i, after)
            }),
    {
        let i = route(key, self.0.len());
        let r = self.0[i].gets(key);
        assert(self.wires() =~= old(self).wires().update(i as int, self.0@[i as int]@));
        r
    }

    /// Fetches the entry under a key and sets its expiry.
    pub fn gat(&mut self, exptime: i64, key: &[u8]) -> (r: Result<Option<Item>, Error>)
        requires
            old(self).wires().len() > 0,
        ensures
            ({
                let ws = old(self).wires();
                let i = shard_of(key@, ws.len());
                let (res, after) = single_exchange(ws[i], b("gat"), Some(exptime), key@);
                outcome(r) == res && final(self).wires() == ws.update(i, after)
            }),
    {
        let i = route(key, self.0.len());
        let r = self.0[i].gat(exptime, key);
        assert(self.wires() =~= old(self).wires().update(i as int, self.0@[i as int]@));
        r
    }

    /// Fetches the entry under a key, with its CAS token, and sets its expiry.
    pub fn gats(&mut self, exptime: i64, key: &[u8]) -> (r: Result<Option<Item>, Error>)
        requires
            old(self).wires().len() > 0,
        ensures
            ({
                let ws = old(self).wires();
                let i = shard_of(key@, ws.len());
                let (res, after) = single_exchange(ws[i], b("gats"), Some(exptime), key@);
                outcome(r) == res && final(self).wires() == ws.update(i, after)
            }),
    {
        let i = route(key, self.0.len());
        let r = self.0[i].gats(exptime, key);
        assert(self.wires() =~= old(self).wires().update(i as int, self.0@[i as int]@));
        r
    }

    /// Asks for the debug line of a key.
    pub fn me(&mut self, key: &[u8]) -> (r: Result<Option<String>, Error>)
        requires
            old(self).wires().len() > 0,
        ensures
            ({
                let ws = old(self).wires();
                let i = shard_of(key@, ws.len());
                let (res, after) = me_exchange(ws[i], key@);
                outcome(r) == res && final(self).wires() == ws.update(i, after)
            }),
    {
        let i = route(key, self.0.len());
        let r = self.0[i].me(key);
        assert(self.wires() =~= old(self).wires().update(i as int, self.0@[i as int]@));
        r
    }

    /// Sends a meta get.
    pub fn mg(&mut self, key: &[u8], flags: &[MgFlag]) -> (r: Result<MgItem, Error>)
        requires
            old(self).wires().len() > 0,
        ensures
            ({
                let ws = old(self).wires();
                let i = shard_of(key@, ws.len());
                let (res, after) = mg_exchange(ws[i], key@, flags@);
                outcome(r) == res && final(self).wires() == ws.update(i, after)
            }),
    {
        let i = route(key, self.0.len());
        let r = self.0[i].mg(key, flags);
        assert(self.wires() =~= old(self).wires().update(i as int, self.0@[i as int]@));
        r
    }

    /// Sends a meta set.
    pub fn ms(
        &mut self,
        key: &[u8],
        flags: &[MsFlag],
        data_block: &[u8],
    ) -> (r: Result<MsItem, Error>)
        requires
            old(self).wires().len() > 0,
        ensures
            ({
                let ws = old(self).wires();
                let i = shard_of(key@, ws.len());
                let (res, after) = ms_exchange(ws[i], key@, flags@, data_block@);
                outcome(r) == res && final(self).wires() == ws.update(i, after)
            }),
    {
        let i = route(key, self.0.len());
        let r = self.0[i].ms(key, flags, data_block);
        assert(self.wires() =~= old(self).wires().update(i as int, self.0@[i as int]@));
        r
    }

    /// Sends a meta delete.
    pub fn md(&mut self, key: &[u8], flags: &[MdFlag]) -> (r: Result<MdItem, Error>)
        requires
            old(self).wires().len() > 0,
        ensures
            ({
                let ws = old(self).wires();
                let i = shard_of(key@, ws.len());
                let (res, after) = md_exchange(ws[i], key@, flags@);
                outcome(r) == res && final(self).wires() == ws.update(i, after)
            }),
    {
        let i = route(key, self.0.len());
        let r = self.0[i].md(key, flags);
        assert(self.wires() =~= old(self).wires().update(i as int, self.0@[i as int]@));
        r
    }

    /// Sends a meta arithmetic.
    pub fn ma(&mut self, key: &[u8], flags: &[MaFlag]) -> (r: Result<MaItem, Error>)
        requires
            old(self).wires().len() > 0,
        ensures
            ({
                let ws = old(self).wires();
                let i = shard_of(key@, ws.len());
                let (res, after) = ma_exchange(ws[i], key@, flags@);
                outcome(r) == res && final(self).wires() == ws.update(i, after)
            }),
    {
        let i = route(key, self.0.len());
        let r = self.0[i].ma(key, flags);
        assert(self.wires() =~= old(self).wires().update(i as int, self.0@[i as int]@));
        r
    }

}

} // verus!
