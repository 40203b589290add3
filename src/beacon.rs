//! Handling of one captured frame: read it as a beacon, classify the access
//! point, and report the network the first time its name is seen.
use vstd::prelude::*;

use crate::catalog::{after_observe, first_sighting, Catalog};
use crate::elements::{elements_security, security_of_elements};
use crate::security::Security;

verus! {

/// A network seen for the first time in this session.
pub struct Report {
    /// The advertised network name.
    pub name: String,
    /// Its security label.
    pub security: Security,
}

/// What a beacon reading gives: the advertised name, if any, and the bytes
/// of the information elements.
pub uninterp spec fn beacon_of(frame: Seq<u8>) -> Option<(Option<Seq<char>>, Seq<u8>)>;

/// The characters of an optional name.
pub open spec fn name_of(s: Option<String>) -> Option<Seq<char>> {
    match s {
        Some(n) => Some(n@),
        None => None,
    }
}

/// A report as its name and its label.
pub open spec fn report_view(r: Option<Report>) -> Option<(Seq<char>, Security)> {
    match r {
        Some(rep) => Some((rep.name@, rep.security)),
        None => None,
    }
}

/// The catalog after a beacon, and the report it gives: a beacon without a
/// name, or with an empty one, changes nothing and reports nothing; a named
/// one is observed, and reported with the label of its elements when the
/// name is new.
pub open spec fn dispatch(known: Set<Seq<char>>, ssid: Option<Seq<char>>, body: Seq<u8>) -> (
    Set<Seq<char>>,
    Option<(Seq<char>, Security)>,
) {
    match ssid {
        Some(n) => if n.len() == 0 {
            (known, None)
        } else if first_sighting(known, n) {
            (after_observe(known, n), Some((n, elements_security(body))))
        } else {
            (after_observe(known, n), None)
        },
        None => (known, None),
    }
}

/// Relies on ieee80211's `GenericFrame::new` and
/// `GenericFrame::parse_to_typed::<BeaconFrame>` to read a frame (without a
/// frame check sequence) as a beacon, and on the beacon's `ssid` and its
/// `elements` field for its first SSID element and its element bytes. The
/// result depends on the frame's bytes alone.
#[verifier::external_body]
fn read_beacon(frame: &[u8]) -> (r: Option<(Option<String>, Vec<u8>)>)
    ensures
        match r {
            Some((ssid, body)) => beacon_of(frame@) == Some((name_of(ssid), body@)),
            None => beacon_of(frame@) is None,
        },
{
    let generic = ieee80211::GenericFrame::new(frame, false).ok()?;
    match generic.parse_to_typed::<ieee80211::mgmt_frame::BeaconFrame>() {
        Some(Ok(beacon)) => Some((
            beacon.ssid().map(String::from),
            beacon.elements.bytes.to_vec(),
        )),
        _ => None,
    }
}

/// Handles a beacon already read from a frame: `ssid` is its advertised name,
/// `elements` the bytes of its information elements.
pub fn handle_beacon(catalog: &mut Catalog, ssid: Option<&str>, elements: &[u8]) -> (r: Option<
    Report,
>)
    requires
        old(catalog).wf(),
    ensures
        final(catalog).wf(),
        (final(catalog)@, report_view(r)) == dispatch(
            old(catalog)@,
            match ssid {
                Some(n) => Some(n@),
                None => None,
            },
            elements@,
        ),
{
    match ssid {
        None => None,
        Some(name) => {
            if name.is_empty() {
                return None;
            }
            let security = security_of_elements(elements);
            if catalog.observe(name) {
                Some(Report { name: name.to_owned(), security })
            } else {
                None
            }
        },
    }
}

/// Reads one captured frame without consulting any catalog: a beacon that
/// advertises a non-empty name gives that name with the label of its
/// elements; anything else gives nothing.
pub fn classify_frame(frame: &[u8]) -> (r: Option<Report>)
    ensures
        report_view(r) == match beacon_of(frame@) {
            Some((Some(n), body)) => if n.len() > 0 {
                Some((n, elements_security(body)))
            } else {
                None
            },
            _ => None,
        },
{
    match read_beacon(frame) {
        Some((Some(name), body)) => {
            if name.as_str().is_empty() {
                None
            } else {
                let security = security_of_elements(body.as_slice());
                Some(Report { name, security })
            }
        },
        _ => None,
    }
}

/// Handles one captured frame. A frame that does not read as a beacon is
/// dropped and leaves the catalog as it was; a beacon is handled as
/// `handle_beacon` does, with its advertised name and its element bytes.
pub fn handle_frame(catalog: &mut Catalog, frame: &[u8]) -> (r: Option<Report>)
    requires
        old(catalog).wf(),
    ensures
        final(catalog).wf(),
        match beacon_of(frame@) {
            None => final(catalog)@ == old(catalog)@ && r is None,
            Some((ssid, body)) => (final(catalog)@, report_view(r)) == dispatch(
                old(catalog)@,
                ssid,
                body,
            ),
        },
{
    match read_beacon(frame) {
        None => None,
        Some((ssid, body)) => match ssid {
            Some(name) => handle_beacon(catalog, Some(name.as_str()), body.as_slice()),
            None => handle_beacon(catalog, None, body.as_slice()),
        },
    }
}

} // verus!
