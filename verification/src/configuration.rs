//! The layered configuration model and the per-monitor resolution algorithm.
//!
//! A configuration holds a normalized USB device identifier, one global pair
//! of optional input sources, and six fixed per-monitor override slots.  For
//! each hotplug event the resolver scans the slots in declared order, takes
//! the first whose identifier fragment is a case-insensitive substring of the
//! queried monitor identifier, and merges that slot's overrides over the
//! global default, per direction.

use vstd::prelude::*;

use crate::errors::ConfigurationError;
use crate::input_source::{InputSource, parse_spec};
use crate::text::{contains_seq, contains_str, lower_of, lowercase};

verus! {

/// Whether the watched USB device was connected or disconnected; the lookup
/// key a hotplug event supplies.
#[derive(Debug, Copy, Clone, PartialEq, Eq, Structural)]
pub enum SwitchDirection {
    Connect,
    Disconnect,
}

impl SwitchDirection {
    /// The lower-case label naming this direction in logs.
    pub fn label(&self) -> (r: String)
        ensures
            *self is Connect ==> r@ == "connect"@,
            *self is Disconnect ==> r@ == "disconnect"@,
    {
        match self {
            SwitchDirection::Connect => "connect".to_owned(),
            SwitchDirection::Disconnect => "disconnect".to_owned(),
        }
    }
}

/// A pair of optional input sources, one per direction.  Used both for the
/// global default and for each per-monitor override; either, both, or
/// neither field may be present.
#[derive(Debug, Copy, Clone)]
pub struct InputSources {
    pub on_usb_connect: Option<InputSource>,
    pub on_usb_disconnect: Option<InputSource>,
}

/// `a` when present, otherwise `b`.
pub open spec fn or_opt(a: Option<InputSource>, b: Option<InputSource>) -> Option<InputSource> {
    if a is Some {
        a
    } else {
        b
    }
}

/// Per-direction override merge: each direction of `overriding` wins when
/// set, and `default` fills the directions it leaves empty.
pub open spec fn merge_spec(overriding: InputSources, default: InputSources) -> InputSources {
    InputSources {
        on_usb_connect: or_opt(overriding.on_usb_connect, default.on_usb_connect),
        on_usb_disconnect: or_opt(overriding.on_usb_disconnect, default.on_usb_disconnect),
    }
}

/// The field of `sources` addressed by `direction`.
pub open spec fn source_spec(sources: InputSources, direction: SwitchDirection) -> Option<
    InputSource,
> {
    match direction {
        SwitchDirection::Connect => sources.on_usb_connect,
        SwitchDirection::Disconnect => sources.on_usb_disconnect,
    }
}

impl InputSources {
    /// Merges this slice over `default`: per direction, this slice's value
    /// when present, otherwise the default's.
    pub fn merge(&self, default: &Self) -> (r: Self)
        ensures
            r == merge_spec(*self, *default),
    {
        InputSources {
            on_usb_connect: if self.on_usb_connect.is_some() {
                self.on_usb_connect
            } else {
                default.on_usb_connect
            },
            on_usb_disconnect: if self.on_usb_disconnect.is_some() {
                self.on_usb_disconnect
            } else {
                default.on_usb_disconnect
            },
        }
    }

    /// The optional source configured for `direction`.
    pub fn source(&self, direction: SwitchDirection) -> (r: Option<InputSource>)
        ensures
            r == source_spec(*self, direction),
    {
        match direction {
            SwitchDirection::Connect => self.on_usb_connect,
            SwitchDirection::Disconnect => self.on_usb_disconnect,
        }
    }
}

/// Law: merging is per-direction independent.  For every pair of slices and
/// every direction, the merged slice's entry for that direction is the
/// overriding slice's entry when present, otherwise the default's — each
/// direction is decided on its own.
pub proof fn lemma_merge_per_direction(
    overriding: InputSources,
    default: InputSources,
    direction: SwitchDirection,
)
    ensures
        source_spec(merge_spec(overriding, default), direction) == or_opt(
            source_spec(overriding, direction),
            source_spec(default, direction),
        ),
{
}

/// One per-monitor override: an identifier fragment plus the sources it
/// configures for the monitors it matches.
#[derive(Debug, Clone)]
pub struct PerMonitorConfiguration {
    pub monitor_id: String,
    pub input_sources: InputSources,
}

/// Case-insensitive substring containment: the configured fragment, lowered,
/// occurs somewhere inside the queried monitor identifier, lowered.
pub open spec fn matches_spec(fragment: Seq<char>, monitor_id: Seq<char>) -> bool {
    contains_seq(lower_of(monitor_id), lower_of(fragment))
}

impl PerMonitorConfiguration {
    /// Whether this override applies to the queried monitor identifier.
    /// Deliberately permissive partial matching, to tolerate vendor strings
    /// that embed serials or revision suffixes.
    pub fn matches(&self, monitor_id: &str) -> (r: bool)
        ensures
            r == matches_spec(self.monitor_id@, monitor_id@),
    {
        let lowered_id = lowercase(monitor_id);
        let lowered_fragment = lowercase(self.monitor_id.as_str());
        contains_str(lowered_id.as_str(), lowered_fragment.as_str())
    }
}

/// The root aggregate: the normalized USB device identifier, the global
/// default sources, and six optional per-monitor override slots in fixed,
/// significant order.
#[derive(Debug)]
pub struct Configuration {
    pub usb_device: String,
    pub input_sources: InputSources,
    pub monitor1: Option<PerMonitorConfiguration>,
    pub monitor2: Option<PerMonitorConfiguration>,
    pub monitor3: Option<PerMonitorConfiguration>,
    pub monitor4: Option<PerMonitorConfiguration>,
    pub monitor5: Option<PerMonitorConfiguration>,
    pub monitor6: Option<PerMonitorConfiguration>,
}

/// The six override slots, in their significant order.
pub open spec fn slot_seq(c: Configuration) -> Seq<Option<PerMonitorConfiguration>> {
    seq![c.monitor1, c.monitor2, c.monitor3, c.monitor4, c.monitor5, c.monitor6]
}

/// Slot `k` is populated and its fragment matches the queried identifier.
pub open spec fn slot_matches(c: Configuration, k: int, monitor_id: Seq<char>) -> bool {
    slot_seq(c)[k] is Some && matches_spec(slot_seq(c)[k].unwrap().monitor_id@, monitor_id)
}

/// The outcome of the six match predicates for one queried identifier.
pub open spec fn match_flags(c: Configuration, monitor_id: Seq<char>) -> Seq<bool> {
    Seq::new(6, |k: int| slot_matches(c, k, monitor_id))
}

/// The position of the first set flag, if any.
pub open spec fn first_true(flags: Seq<bool>) -> Option<int> {
    if flags.len() >= 1 && flags[0] {
        Some(0)
    } else if flags.len() >= 2 && flags[1] {
        Some(1)
    } else if flags.len() >= 3 && flags[2] {
        Some(2)
    } else if flags.len() >= 4 && flags[3] {
        Some(3)
    } else if flags.len() >= 5 && flags[4] {
        Some(4)
    } else if flags.len() >= 6 && flags[5] {
        Some(5)
    } else {
        None
    }
}

/// The effective sources once the match outcomes are fixed: the first
/// matching slot merged over the global default, or the global default alone
/// when nothing matches.
pub open spec fn effective_for_flags(c: Configuration, flags: Seq<bool>) -> InputSources {
    match first_true(flags) {
        Some(k) => if 0 <= k < 6 && slot_seq(c)[k] is Some {
            merge_spec(slot_seq(c)[k].unwrap().input_sources, c.input_sources)
        } else {
            c.input_sources
        },
        None => c.input_sources,
    }
}

/// The effective sources for a queried monitor identifier.
pub open spec fn effective_sources_spec(c: Configuration, monitor_id: Seq<char>) -> InputSources {
    effective_for_flags(c, match_flags(c, monitor_id))
}

/// The resolved optional source for one identifier and one direction.
pub open spec fn resolve_spec(
    c: Configuration,
    monitor_id: Seq<char>,
    direction: SwitchDirection,
) -> Option<InputSource> {
    source_spec(effective_sources_spec(c, monitor_id), direction)
}

/// Whether a slot is populated with a matching fragment.
fn slot_match(slot: &Option<PerMonitorConfiguration>, monitor_id: &str) -> (r: bool)
    ensures
        r == (slot is Some && matches_spec(slot.unwrap().monitor_id@, monitor_id@)),
{
    match slot {
        Some(m) => m.matches(monitor_id),
        None => false,
    }
}

impl Configuration {
    /// The effective input sources for one queried monitor identifier: the
    /// first matching slot, in slot order, merged over the global default;
    /// the global default alone when no slot matches.  Later matching slots
    /// are ignored entirely, never merged in.
    pub fn configuration_for_monitor(&self, monitor_id: &str) -> (r: InputSources)
        ensures
            r == effective_sources_spec(*self, monitor_id@),
    {
        let ghost flags = match_flags(*self, monitor_id@);
        proof {
            assert(flags.len() == 6);
            assert(forall|k: int| 0 <= k < 6 ==> flags[k] == slot_matches(*self, k, monitor_id@));
        }
        if slot_match(&self.monitor1, monitor_id) {
            let m = self.monitor1.as_ref().unwrap();
            return m.input_sources.merge(&self.input_sources);
        }
        if slot_match(&self.monitor2, monitor_id) {
            let m = self.monitor2.as_ref().unwrap();
            return m.input_sources.merge(&self.input_sources);
        }
        if slot_match(&self.monitor3, monitor_id) {
            let m = self.monitor3.as_ref().unwrap();
            return m.input_sources.merge(&self.input_sources);
        }
        if slot_match(&self.monitor4, monitor_id) {
            let m = self.monitor4.as_ref().unwrap();
            return m.input_sources.merge(&self.input_sources);
        }
        if slot_match(&self.monitor5, monitor_id) {
            let m = self.monitor5.as_ref().unwrap();
            return m.input_sources.merge(&self.input_sources);
        }
        if slot_match(&self.monitor6, monitor_id) {
            let m = self.monitor6.as_ref().unwrap();
            return m.input_sources.merge(&self.input_sources);
        }
        self.input_sources
    }

    /// Resolves one hotplug event: the optional input source configured for
    /// this monitor identifier and direction.  Absence is a valid outcome,
    /// not an error.
    pub fn resolve(&self, monitor_id: &str, direction: SwitchDirection) -> (r: Option<InputSource>)
        ensures
            r == resolve_spec(*self, monitor_id@, direction),
    {
        self.configuration_for_monitor(monitor_id).source(direction)
    }
}

/// One per-monitor block as the loader hands it over: the identifier
/// fragment and the raw direction tokens, exactly as the layered sources
/// spelled them.
#[derive(Debug)]
pub struct RawPerMonitorConfiguration {
    pub monitor_id: String,
    pub on_usb_connect: Option<String>,
    pub on_usb_disconnect: Option<String>,
}

/// The raw layered key/value data an external loader feeds in: file contents
/// already overlaid with environment overrides, but with every value still a
/// plain string.
#[derive(Debug)]
pub struct RawConfiguration {
    pub usb_device: Option<String>,
    pub on_usb_connect: Option<String>,
    pub on_usb_disconnect: Option<String>,
    pub monitor1: Option<RawPerMonitorConfiguration>,
    pub monitor2: Option<RawPerMonitorConfiguration>,
    pub monitor3: Option<RawPerMonitorConfiguration>,
    pub monitor4: Option<RawPerMonitorConfiguration>,
    pub monitor5: Option<RawPerMonitorConfiguration>,
    pub monitor6: Option<RawPerMonitorConfiguration>,
}

/// An absent token is fine; a present one must parse.
pub open spec fn token_ok(token: Option<String>) -> bool {
    match token {
        Some(s) => parse_spec(s@) is Some,
        None => true,
    }
}

/// The typed value a raw token converts to.
pub open spec fn converted_token(token: Option<String>) -> Option<InputSource> {
    match token {
        Some(s) => Some(InputSource { value: parse_spec(s@).unwrap() }),
        None => None,
    }
}

/// The typed slice a pair of raw direction tokens converts to.
pub open spec fn converted_sources(connect: Option<String>, disconnect: Option<String>) -> InputSources {
    InputSources {
        on_usb_connect: converted_token(connect),
        on_usb_disconnect: converted_token(disconnect),
    }
}

/// Every token of a raw per-monitor block parses.
pub open spec fn slot_tokens_ok(slot: Option<RawPerMonitorConfiguration>) -> bool {
    match slot {
        Some(raw) => token_ok(raw.on_usb_connect) && token_ok(raw.on_usb_disconnect),
        None => true,
    }
}

/// The first unparsable token of a raw per-monitor block, connect before
/// disconnect, if any.
pub open spec fn slot_bad_token(slot: Option<RawPerMonitorConfiguration>) -> Option<Seq<char>> {
    match slot {
        Some(raw) => if !token_ok(raw.on_usb_connect) {
            Some(raw.on_usb_connect.unwrap()@)
        } else if !token_ok(raw.on_usb_disconnect) {
            Some(raw.on_usb_disconnect.unwrap()@)
        } else {
            None
        },
        None => None,
    }
}

/// A built slot mirrors its raw block: same population, the fragment kept
/// as given, and both direction tokens converted.
pub open spec fn converted_slot(
    built: Option<PerMonitorConfiguration>,
    raw: Option<RawPerMonitorConfiguration>,
) -> bool {
    match raw {
        Some(r) => built is Some && built.unwrap().monitor_id@ == r.monitor_id@
            && built.unwrap().input_sources == converted_sources(
            r.on_usb_connect,
            r.on_usb_disconnect,
        ),
        None => built is None,
    }
}

/// The raw data is acceptable: the device identifier is present and every
/// token parses.
pub open spec fn raw_valid(raw: RawConfiguration) -> bool {
    &&& raw.usb_device is Some
    &&& token_ok(raw.on_usb_connect)
    &&& token_ok(raw.on_usb_disconnect)
    &&& slot_tokens_ok(raw.monitor1)
    &&& slot_tokens_ok(raw.monitor2)
    &&& slot_tokens_ok(raw.monitor3)
    &&& slot_tokens_ok(raw.monitor4)
    &&& slot_tokens_ok(raw.monitor5)
    &&& slot_tokens_ok(raw.monitor6)
}

/// The first unparsable token over the whole raw aggregate, in validation
/// order: global connect, global disconnect, then each slot in order.
pub open spec fn first_bad_token(raw: RawConfiguration) -> Option<Seq<char>> {
    if !token_ok(raw.on_usb_connect) {
        Some(raw.on_usb_connect.unwrap()@)
    } else if !token_ok(raw.on_usb_disconnect) {
        Some(raw.on_usb_disconnect.unwrap()@)
    } else if slot_bad_token(raw.monitor1) is Some {
        slot_bad_token(raw.monitor1)
    } else if slot_bad_token(raw.monitor2) is Some {
        slot_bad_token(raw.monitor2)
    } else if slot_bad_token(raw.monitor3) is Some {
        slot_bad_token(raw.monitor3)
    } else if slot_bad_token(raw.monitor4) is Some {
        slot_bad_token(raw.monitor4)
    } else if slot_bad_token(raw.monitor5) is Some {
        slot_bad_token(raw.monitor5)
    } else if slot_bad_token(raw.monitor6) is Some {
        slot_bad_token(raw.monitor6)
    } else {
        None
    }
}

/// A built configuration mirrors the raw data: the device identifier
/// lower-cased, the global tokens converted, and each slot converted with
/// its fragment kept as given.
pub open spec fn built_from(c: Configuration, raw: RawConfiguration) -> bool {
    &&& c.usb_device@ == lower_of(raw.usb_device.unwrap()@)
    &&& c.input_sources == converted_sources(raw.on_usb_connect, raw.on_usb_disconnect)
    &&& converted_slot(c.monitor1, raw.monitor1)
    &&& converted_slot(c.monitor2, raw.monitor2)
    &&& converted_slot(c.monitor3, raw.monitor3)
    &&& converted_slot(c.monitor4, raw.monitor4)
    &&& converted_slot(c.monitor5, raw.monitor5)
    &&& converted_slot(c.monitor6, raw.monitor6)
}

/// Converts one optional raw token, handing back the parse failure as-is.
fn convert_token(token: Option<String>) -> (r: Result<Option<InputSource>, ConfigurationError>)
    ensures
        r is Ok <==> token_ok(token),
        r is Ok ==> r->Ok_0 == converted_token(token),
        r is Err ==> r->Err_0 is InvalidInputSource && r->Err_0->InvalidInputSource_0@
            == token.unwrap()@,
{
    match token {
        None => Ok(None),
        Some(s) => match InputSource::parse(s.as_str()) {
            Ok(v) => Ok(Some(v)),
            Err(e) => Err(e),
        },
    }
}

/// Converts a pair of raw direction tokens, connect validated first.
fn convert_sources(connect: Option<String>, disconnect: Option<String>) -> (r: Result<
    InputSources,
    ConfigurationError,
>)
    ensures
        r is Ok <==> token_ok(connect) && token_ok(disconnect),
        r is Ok ==> r->Ok_0 == converted_sources(connect, disconnect),
        r is Err ==> r->Err_0 is InvalidInputSource,
        r is Err && !token_ok(connect) ==> r->Err_0->InvalidInputSource_0@ == connect.unwrap()@,
        r is Err && token_ok(connect) ==> !token_ok(disconnect)
            && r->Err_0->InvalidInputSource_0@ == disconnect.unwrap()@,
{
    let on_usb_connect = match convert_token(connect) {
        Ok(v) => v,
        Err(e) => {
            return Err(e);
        },
    };
    let on_usb_disconnect = match convert_token(disconnect) {
        Ok(v) => v,
        Err(e) => {
            return Err(e);
        },
    };
    Ok(InputSources { on_usb_connect, on_usb_disconnect })
}

/// Converts one optional raw per-monitor block.
fn convert_slot(slot: Option<RawPerMonitorConfiguration>) -> (r: Result<
    Option<PerMonitorConfiguration>,
    ConfigurationError,
>)
    ensures
        r is Ok <==> slot_tokens_ok(slot),
        r is Ok ==> converted_slot(r->Ok_0, slot),
        r is Err ==> r->Err_0 is InvalidInputSource && slot_bad_token(slot) is Some
            && r->Err_0->InvalidInputSource_0@ == slot_bad_token(slot).unwrap(),
{
    match slot {
        None => Ok(None),
        Some(raw) => match convert_sources(raw.on_usb_connect, raw.on_usb_disconnect) {
            Ok(input_sources) => Ok(
                Some(PerMonitorConfiguration { monitor_id: raw.monitor_id, input_sources }),
            ),
            Err(e) => Err(e),
        },
    }
}

impl Configuration {
    /// Validates and converts raw layered key/value data into the immutable
    /// typed aggregate.  The device identifier is required and is normalized
    /// to lower case; every present token must parse; the first failure
    /// rejects the whole configuration — there is no partial application.
    pub fn from_raw(raw: RawConfiguration) -> (r: Result<Configuration, ConfigurationError>)
        ensures
            r is Ok <==> raw_valid(raw),
            r is Ok ==> built_from(r->Ok_0, raw),
            raw.usb_device is None ==> r == Err::<Configuration, ConfigurationError>(
                ConfigurationError::MissingRequiredField,
            ),
            raw.usb_device is Some && !raw_valid(raw) ==> r is Err && r->Err_0
                is InvalidInputSource && first_bad_token(raw) is Some
                && r->Err_0->InvalidInputSource_0@ == first_bad_token(raw).unwrap(),
    {
        let usb_raw = match raw.usb_device {
            Some(s) => s,
            None => {
                return Err(ConfigurationError::MissingRequiredField);
            },
        };
        let usb_device = lowercase(usb_raw.as_str());
        let input_sources = match convert_sources(raw.on_usb_connect, raw.on_usb_disconnect) {
            Ok(v) => v,
            Err(e) => {
                return Err(e);
            },
        };
        let monitor1 = match convert_slot(raw.monitor1) {
            Ok(v) => v,
            Err(e) => {
                return Err(e);
            },
        };
        let monitor2 = match convert_slot(raw.monitor2) {
            Ok(v) => v,
            Err(e) => {
                return Err(e);
            },
        };
        let monitor3 = match convert_slot(raw.monitor3) {
            Ok(v) => v,
            Err(e) => {
                return Err(e);
            },
        };
        let monitor4 = match convert_slot(raw.monitor4) {
            Ok(v) => v,
            Err(e) => {
                return Err(e);
            },
        };
        let monitor5 = match convert_slot(raw.monitor5) {
            Ok(v) => v,
            Err(e) => {
                return Err(e);
            },
        };
        let monitor6 = match convert_slot(raw.monitor6) {
            Ok(v) => v,
            Err(e) => {
                return Err(e);
            },
        };
        Ok(
            Configuration {
                usb_device,
                input_sources,
                monitor1,
                monitor2,
                monitor3,
                monitor4,
                monitor5,
                monitor6,
            },
        )
    }
}

/// Law: first-match precedence.  When slot `i` is the first matching slot,
/// every direction resolves to slot `i`'s entry when set, otherwise to the
/// global default — even when a later slot `j` also matches, and even for a
/// direction slot `i` leaves unset.  Instantiating `flags` with
/// `match_flags(c, monitor_id)` states this of an actual query.
pub proof fn lemma_first_match_precedence(
    c: Configuration,
    flags: Seq<bool>,
    i: int,
    j: int,
    direction: SwitchDirection,
)
    requires
        flags.len() == 6,
        0 <= i < j < 6,
        flags[i],
        flags[j],
        forall|k: int| 0 <= k < i ==> !flags[k],
        slot_seq(c)[i] is Some,
    ensures
        source_spec(effective_for_flags(c, flags), direction) == or_opt(
            source_spec(slot_seq(c)[i].unwrap().input_sources, direction),
            source_spec(c.input_sources, direction),
        ),
{
    assert(first_true(flags) == Some(i));
}

/// Law: no-match fallback.  An identifier matching no configured slot
/// resolves strictly to the global default, for every direction.
/// Instantiating `flags` with `match_flags(c, monitor_id)` states this of an
/// actual query.
pub proof fn lemma_no_match_fallback(c: Configuration, flags: Seq<bool>, direction: SwitchDirection)
    requires
        flags.len() == 6,
        forall|k: int| 0 <= k < 6 ==> !flags[k],
    ensures
        source_spec(effective_for_flags(c, flags), direction) == source_spec(
            c.input_sources,
            direction,
        ),
{
}

} // verus!
