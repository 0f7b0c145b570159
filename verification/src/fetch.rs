use vstd::prelude::*;
use vstd::string::*;

use crate::asset::Asset;
use crate::asset::AssetPriceEvent;
use crate::asset::AssetPriceProvider;
use crate::asset::Price;
use crate::ident::address_of_identifier;
use crate::ident::identifier_of;
use crate::ident::spec_address_of;
use crate::ident::spec_identifier;
use crate::table::AssetTable;

verus! {

/// One entry of a parsed multi-asset feed response, keyed by the
/// provider-specific identifier. `price` is `None` where the feed's numeric
/// price could not be converted to a fixed-precision decimal (overflow or
/// not a number); `timestamp` is the feed-provided unix time in seconds.
pub struct PriceEntry {
    pub identifier: String,
    pub price: Option<Price>,
    pub timestamp: u64,
}

/// A per-entry, non-fatal condition raised while turning a feed response
/// into events: the entry is dropped and the warning handed to the
/// telemetry sink.
#[derive(Debug)]
pub enum FetchWarning {
    /// The entry's identifier holds no separator, so no address can be
    /// derived from it.
    MalformedIdentifier(String),
    /// The derived address is not in the fetch cycle's snapshot (for
    /// instance, evicted after the snapshot was taken).
    UnknownAsset(String),
}

/// The ghost shape of a warning: which kind it is, and the text it carries.
pub struct WarningView {
    pub malformed: bool,
    pub text: Seq<char>,
}

impl View for FetchWarning {
    type V = WarningView;

    open spec fn view(&self) -> WarningView {
        match self {
            FetchWarning::MalformedIdentifier(s) => WarningView { malformed: true, text: s@ },
            FetchWarning::UnknownAsset(s) => WarningView { malformed: false, text: s@ },
        }
    }
}

/// The event a feed entry yields against a snapshot of the asset table:
/// `None` where the identifier is malformed or its address is untracked,
/// and otherwise an event carrying the snapshot's asset, the entry's price
/// (zero where the conversion failed) and the feed's timestamp.
pub open spec fn spec_event_of(t: AssetTable, e: PriceEntry) -> Option<AssetPriceEvent> {
    match spec_address_of(e.identifier@) {
        None => None,
        Some(addr) => match t.spec_lookup(addr) {
            None => None,
            Some(asset) => Some(
                AssetPriceEvent {
                    provider: AssetPriceProvider::DeFiLlama,
                    asset,
                    price: Price::spec_or_zero(e.price),
                    fetched_at: e.timestamp,
                },
            ),
        },
    }
}

/// The warning a feed entry yields, mirroring `spec_event_of`: exactly the
/// dropped entries warn, the published ones do not.
pub open spec fn spec_warning_of(t: AssetTable, e: PriceEntry) -> Option<WarningView> {
    match spec_address_of(e.identifier@) {
        None => Some(WarningView { malformed: true, text: e.identifier@ }),
        Some(addr) => match t.spec_lookup(addr) {
            None => Some(WarningView { malformed: false, text: addr }),
            Some(asset) => None,
        },
    }
}

pub open spec fn spec_events(t: AssetTable, entries: Seq<PriceEntry>) -> Seq<AssetPriceEvent>
    decreases entries.len(),
{
    if entries.len() == 0 {
        Seq::empty()
    } else {
        spec_events(t, entries.drop_last()) + match spec_event_of(t, entries.last()) {
            Some(e) => seq![e],
            None => Seq::empty(),
        }
    }
}

pub open spec fn spec_warnings(t: AssetTable, entries: Seq<PriceEntry>) -> Seq<WarningView>
    decreases entries.len(),
{
    if entries.len() == 0 {
        Seq::empty()
    } else {
        spec_warnings(t, entries.drop_last()) + match spec_warning_of(t, entries.last()) {
            Some(w) => seq![w],
            None => Seq::empty(),
        }
    }
}

/// Every feed entry is accounted for: it yields an event or a warning,
/// never both and never neither, so events and warnings together number
/// exactly the entries.
pub proof fn lemma_events_warnings_partition(t: AssetTable, entries: Seq<PriceEntry>)
    ensures
        spec_events(t, entries).len() + spec_warnings(t, entries).len() == entries.len(),
    decreases entries.len(),
{
    if entries.len() > 0 {
        lemma_events_warnings_partition(t, entries.drop_last());
    }
}

/// Turns a parsed feed response into price events against a fetch cycle's
/// snapshot of the asset table. Each entry yields exactly one of: an event
/// (identifier well-formed, address tracked in the snapshot), or a warning
/// (malformed identifier, or address untracked). Events carry the asset as
/// the snapshot holds it, so a concurrent removal from the live table does
/// not change what is published for this cycle.
pub fn events_from_entries(snapshot: &AssetTable, entries: Vec<PriceEntry>) -> (r: (
    Vec<AssetPriceEvent>,
    Vec<FetchWarning>,
))
    requires
        snapshot.wf(),
    ensures
        r.0@ == spec_events(*snapshot, entries@),
        r.1@.map_values(|w: FetchWarning| w@) == spec_warnings(*snapshot, entries@),
{
    let mut events: Vec<AssetPriceEvent> = Vec::new();
    let mut warnings: Vec<FetchWarning> = Vec::new();
    let n = entries.len();
    let mut i: usize = 0;
    proof {
        assert(entries@.take(0) =~= Seq::<PriceEntry>::empty());
        assert(warnings@.map_values(|w: FetchWarning| w@) =~= Seq::<WarningView>::empty());
    }
    while i < n
        invariant
            i <= n,
            n == entries@.len(),
            snapshot.wf(),
            events@ == spec_events(*snapshot, entries@.take(i as int)),
            warnings@.map_values(|w: FetchWarning| w@) == spec_warnings(
                *snapshot,
                entries@.take(i as int),
            ),
        decreases n - i,
    {
        let ghost pre_warnings = warnings@;
        let e = &entries[i];
        match address_of_identifier(e.identifier.as_str()) {
            None => {
                warnings.push(FetchWarning::MalformedIdentifier(e.identifier.clone()));
            },
            Some(addr) => {
                match snapshot.lookup(addr.as_str()) {
                    None => {
                        warnings.push(FetchWarning::UnknownAsset(addr));
                    },
                    Some(asset) => {
                        events.push(
                            AssetPriceEvent {
                                provider: AssetPriceProvider::DeFiLlama,
                                asset,
                                price: Price::or_zero(e.price),
                                fetched_at: e.timestamp,
                            },
                        );
                    },
                }
            },
        }
        proof {
            let taken = entries@.take(i + 1);
            assert(taken.drop_last() =~= entries@.take(i as int));
            assert(taken.last() == entries@[i as int]);
            assert(events@ =~= spec_events(*snapshot, taken));
            assert(warnings@.map_values(|w: FetchWarning| w@) =~= spec_warnings(*snapshot, taken));
        }
        i = i + 1;
    }
    proof {
        assert(entries@.take(n as int) =~= entries@);
    }
    (events, warnings)
}

/// The fetch cycle's encoding loses nothing: a feed entry keyed exactly as
/// the request builder keys a registered asset yields the event for that
/// asset — the snapshot's copy, the entry's price (zero where conversion
/// failed), the feed's timestamp — for every address free of the
/// identifier separator.
pub proof fn lemma_registered_entry_yields_event(t: AssetTable, e: PriceEntry, asset: Asset)
    requires
        t.wf(),
        t.spec_lookup(asset.address@) == Some(asset),
        e.identifier@ == spec_identifier(asset.chain, asset.address@),
        forall|j: int| 0 <= j < asset.address@.len() ==> asset.address@[j] != ':',
    ensures
        spec_event_of(t, e) == Some(
            AssetPriceEvent {
                provider: AssetPriceProvider::DeFiLlama,
                asset,
                price: Price::spec_or_zero(e.price),
                fetched_at: e.timestamp,
            },
        ),
        spec_warning_of(t, e) is None,
{
    crate::ident::lemma_identifier_round_trip(asset.chain, asset.address@);
}

/// The identifiers of a table's assets, in table order.
pub open spec fn spec_identifiers(assets: Seq<Asset>) -> Seq<Seq<char>> {
    assets.map_values(|a: Asset| spec_identifier(a.chain, a.address@))
}

/// Sequences of characters joined by a comma.
pub open spec fn spec_join(ids: Seq<Seq<char>>) -> Seq<char>
    decreases ids.len(),
{
    if ids.len() == 0 {
        Seq::empty()
    } else if ids.len() == 1 {
        ids[0]
    } else {
        spec_join(ids.drop_last()) + seq![','] + ids.last()
    }
}

/// The query parameter of one batched outbound request: the comma-joined
/// list of the snapshot's provider-specific identifiers. On an empty table
/// it is `None`: the fetch cycle then makes no outbound call at all and
/// returns an empty result.
pub fn request_params(snapshot: &AssetTable) -> (r: Option<String>)
    ensures
        (r is None) == (snapshot.spec_assets().len() == 0),
        r is Some ==> r.unwrap()@ == spec_join(spec_identifiers(snapshot.spec_assets())),
{
    if snapshot.is_empty() {
        return None;
    }
    let assets = snapshot.entries();
    let n = assets.len();
    let mut s = identifier_of(&assets[0].chain, assets[0].address.as_str());
    proof {
        assert(spec_identifiers(assets@.take(1)) =~= seq![
            spec_identifier(assets@[0].chain, assets@[0].address@),
        ]);
        assert(s@ == spec_join(spec_identifiers(assets@.take(1))));
    }
    let mut i: usize = 1;
    while i < n
        invariant
            1 <= i <= n,
            n == assets@.len(),
            s@ == spec_join(spec_identifiers(assets@.take(i as int))),
        decreases n - i,
    {
        let id = identifier_of(&assets[i].chain, assets[i].address.as_str());
        s.append(",");
        s.append(id.as_str());
        proof {
            reveal_strlit(",");
            assert(","@ =~= seq![',']);
            let ids1 = spec_identifiers(assets@.take(i + 1));
            assert(ids1.drop_last() =~= spec_identifiers(assets@.take(i as int)));
            assert(ids1.last() == spec_identifier(assets@[i as int].chain, assets@[i as int].address@));
            assert(s@ =~= spec_join(ids1));
        }
        i = i + 1;
    }
    proof {
        assert(assets@.take(n as int) =~= assets@);
    }
    Some(s)
}

} // verus!
