//! The fallback data source: tables of symbol values that others publish
//! for the target, consulted where a signature scan finds nothing.
//!
//! The sources form a chain: a local cache first, then the mirrors in a
//! fixed order. Fetching and decoding a source is the caller's work; what
//! comes of each attempt is handed in as a value, `None` for a source that
//! could not be had or decoded. The first source that yields a table
//! decides: each value is looked up in it under the primary key and then
//! under the alternate key, and a value that it holds under neither is not
//! given by the chain at all.

use vstd::prelude::*;
use vstd::string::*;
use crate::cs2::name_table::NameTable;
use crate::cs2::offsets::{DirectOffsets, NetworkGameClientOffsets, Offsets};
use crate::memory::{address_add, wrap_address};

verus! {

/// The symbol under which a table holds the network game client's offset
/// from the engine's base.
pub const NETWORK_CLIENT_SYMBOL: &'static str = "dwNetworkGameClient";

/// The symbol under which a table holds the offset of the delta tick.
pub const DELTA_TICK_SYMBOL: &'static str = "dwNetworkGameClient_deltaTick";

/// The name of the local cache file, the first source of the chain.
pub const LOCAL_CACHE: &'static str = "offsets.json";

/// The number of sources in the chain: the local cache and the mirrors.
pub const SOURCE_COUNT: usize = 4;

/// The decoded content of one source: a table of symbol values for each
/// module key it holds.
pub struct DumperOutput {
    pub client: Option<NameTable<u64>>,
    pub engine: Option<NameTable<u64>>,
    pub libclient: Option<NameTable<u64>>,
    pub libengine: Option<NameTable<u64>>,
}

/// The value that a decoded source holds for a symbol of the engine: the
/// one under the primary key, else the one under the alternate key.
pub open spec fn engine_symbol(output: DumperOutput, symbol: Seq<u8>) -> Option<u64> {
    if output.libengine is Some && output.libengine.unwrap()@.dom().contains(symbol) {
        Some(output.libengine.unwrap()@[symbol])
    } else if output.engine is Some && output.engine.unwrap()@.dom().contains(symbol) {
        Some(output.engine.unwrap()@[symbol])
    } else {
        None
    }
}

/// The index of the first source from `from` on that yielded a table.
pub open spec fn first_decoded(sources: Seq<Option<DumperOutput>>, from: int) -> Option<int>
    decreases sources.len() - from,
{
    if from < 0 || from >= sources.len() {
        None
    } else if sources[from] is Some {
        Some(from)
    } else {
        first_decoded(sources, from + 1)
    }
}

/// The offsets after the values of one decoded source are taken over. A
/// symbol that the source holds under neither key leaves its offset as it
/// was.
pub open spec fn spec_apply_dumper(offsets: Offsets, output: DumperOutput) -> Offsets {
    let network_client = match engine_symbol(output, NETWORK_CLIENT_SYMBOL.spec_bytes()) {
        Some(value) => wrap_address(offsets.library.engine + value),
        None => offsets.direct.network_client,
    };
    let delta_tick = match engine_symbol(output, DELTA_TICK_SYMBOL.spec_bytes()) {
        Some(value) => value,
        None => offsets.network_client.delta_tick,
    };
    Offsets {
        direct: DirectOffsets { network_client, ..offsets.direct },
        network_client: NetworkGameClientOffsets { delta_tick },
        ..offsets
    }
}

/// The offsets after the chain is consulted, and whether the chain has
/// given the network game client: the first source that yielded a table
/// holds its symbol.
pub open spec fn spec_update_from_dumper(
    offsets: Offsets,
    sources: Seq<Option<DumperOutput>>,
) -> (Offsets, bool) {
    match first_decoded(sources, 0) {
        Some(index) => (
            spec_apply_dumper(offsets, sources[index].unwrap()),
            engine_symbol(sources[index].unwrap(), NETWORK_CLIENT_SYMBOL.spec_bytes()) is Some,
        ),
        None => (offsets, false),
    }
}

/// Which source to try next, given what came of the attempts so far:
/// the next in the chain while none has yielded a table and some are left,
/// else none.
pub open spec fn spec_next_source(attempts: Seq<Option<DumperOutput>>) -> Option<usize> {
    if first_decoded(attempts, 0) is None && attempts.len() < SOURCE_COUNT {
        Some(attempts.len() as usize)
    } else {
        None
    }
}

/// The first mirror of the chain.
pub const MIRROR_1: &'static str =
    "https://raw.githubusercontent.com/sezzyaep/CS2-OFFSETS/main/offsets.json";

/// The second mirror of the chain.
pub const MIRROR_2: &'static str =
    "https://raw.githubusercontent.com/hxuanyu/cs2-dumper/main/output/linux/offsets.json";

/// The third mirror of the chain.
pub const MIRROR_3: &'static str =
    "https://raw.githubusercontent.com/a2x/cs2-dumper/main/output/linux/offsets.json";

/// The address of source `index` of the chain, for the sources that are
/// mirrors.
pub open spec fn spec_mirror(index: usize) -> Option<&'static str> {
    if index == 1 {
        Some(MIRROR_1)
    } else if index == 2 {
        Some(MIRROR_2)
    } else if index == 3 {
        Some(MIRROR_3)
    } else {
        None
    }
}

/// The address of source `index` of the chain, for the sources that are
/// mirrors.
pub fn mirror(index: usize) -> (r: Option<&'static str>)
    ensures
        r == spec_mirror(index),
        r is Some <==> 1 <= index < SOURCE_COUNT,
{
    if index == 1 {
        Some(MIRROR_1)
    } else if index == 2 {
        Some(MIRROR_2)
    } else if index == 3 {
        Some(MIRROR_3)
    } else {
        None
    }
}

/// The index of the first source that yielded a table.
pub fn first_decoded_source(sources: &Vec<Option<DumperOutput>>) -> (r: Option<usize>)
    ensures
        match r {
            Some(index) => first_decoded(sources@, 0) == Some(index as int) && index
                < sources@.len() && sources@[index as int] is Some,
            None => first_decoded(sources@, 0) is None,
        },
{
    let mut i: usize = 0;
    while i < sources.len()
        invariant
            i <= sources@.len(),
            first_decoded(sources@, 0) == first_decoded(sources@, i as int),
        decreases sources@.len() - i,
    {
        if sources[i].is_some() {
            return Some(i);
        }
        i += 1;
    }
    None
}

/// Decides which source of the chain is to be fetched next. Index 0 is the
/// local cache, the others are mirrors.
pub fn next_source(attempts: &Vec<Option<DumperOutput>>) -> (r: Option<usize>)
    ensures
        r == spec_next_source(attempts@),
{
    if attempts.len() >= SOURCE_COUNT {
        return None;
    }
    match first_decoded_source(attempts) {
        Some(_) => None,
        None => Some(attempts.len()),
    }
}

/// Looks a symbol of the engine up in a decoded source: under the primary
/// key first, then under the alternate key.
pub fn lookup_engine_symbol(output: &DumperOutput, symbol: &str) -> (r: Option<u64>)
    ensures
        r == engine_symbol(*output, symbol.spec_bytes()),
{
    match &output.libengine {
        Some(symbols) => match symbols.get(symbol.as_bytes()) {
            Some(value) => {
                return Some(*value);
            },
            None => {},
        },
        None => {},
    }
    match &output.engine {
        Some(symbols) => match symbols.get(symbol.as_bytes()) {
            Some(value) => Some(*value),
            None => None,
        },
        None => None,
    }
}

/// Takes the values of the first source that yielded a table over into
/// `offsets`, and says whether the network game client was among them.
/// Where it was not, the caller has no value for it yet.
pub fn update_offsets_from_dumper(offsets: &mut Offsets, sources: &Vec<Option<DumperOutput>>) -> (r:
    bool)
    ensures
        (*final(offsets), r) == spec_update_from_dumper(*old(offsets), sources@),
{
    let index = match first_decoded_source(sources) {
        Some(index) => index,
        None => {
            return false;
        },
    };
    let output: &DumperOutput = match &sources[index] {
        Some(output) => output,
        None => {
            return false;
        },
    };
    match lookup_engine_symbol(output, DELTA_TICK_SYMBOL) {
        Some(value) => {
            offsets.network_client.delta_tick = value;
        },
        None => {},
    }
    match lookup_engine_symbol(output, NETWORK_CLIENT_SYMBOL) {
        Some(value) => {
            offsets.direct.network_client = address_add(offsets.library.engine, value);
            true
        },
        None => false,
    }
}

} // verus!
