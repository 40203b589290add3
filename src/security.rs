//! The security label that an access point advertises, decided from three
//! flags gathered while walking the information elements of its beacon.
use vstd::prelude::*;

verus! {

/// What the information elements of one beacon revealed.
#[derive(Clone, Copy, Debug, PartialEq, Eq, Structural)]
pub struct SecurityFlags {
    /// A vendor-specific element carries the WPA OUI and type.
    pub has_wpa: bool,
    /// An RSN element is present.
    pub has_rsn: bool,
    /// An RSN element lists the SAE key-management suite.
    pub has_sae: bool,
}

impl SecurityFlags {
    /// No element seen yet: every flag is clear.
    pub fn new() -> (r: SecurityFlags)
        ensures
            r == (SecurityFlags { has_wpa: false, has_rsn: false, has_sae: false }),
    {
        SecurityFlags { has_wpa: false, has_rsn: false, has_sae: false }
    }

    /// The label that these flags stand for.
    pub fn security(&self) -> (r: Security)
        ensures
            r == security_of(self.has_wpa, self.has_rsn, self.has_sae),
    {
        classify(self.has_wpa, self.has_rsn, self.has_sae)
    }
}

/// The five security labels, from weakest to strongest.
#[derive(Clone, Copy, Debug, PartialEq, Eq, Structural)]
pub enum Security {
    Open,
    Wpa,
    Wpa2,
    WpaWpa2Mixed,
    Wpa3,
}

/// The decision table, as an ordered list of rules of which the first that
/// matches wins: SAE dominates, then WPA together with RSN, then RSN alone,
/// then WPA alone, and nothing at all is an open network.
pub open spec fn security_of(has_wpa: bool, has_rsn: bool, has_sae: bool) -> Security {
    if has_sae {
        Security::Wpa3
    } else if has_wpa && has_rsn {
        Security::WpaWpa2Mixed
    } else if has_rsn {
        Security::Wpa2
    } else if has_wpa {
        Security::Wpa
    } else {
        Security::Open
    }
}

/// The text that a report shows for each label.
pub open spec fn label_of(s: Security) -> Seq<char> {
    match s {
        Security::Open => "Open"@,
        Security::Wpa => "WPA"@,
        Security::Wpa2 => "WPA2"@,
        Security::WpaWpa2Mixed => "WPA/WPA2-mixed"@,
        Security::Wpa3 => "WPA3"@,
    }
}

/// Classifies an access point from its three security flags.
pub fn classify(has_wpa: bool, has_rsn: bool, has_sae: bool) -> (r: Security)
    ensures
        r == security_of(has_wpa, has_rsn, has_sae),
        has_sae ==> r == Security::Wpa3,
        !has_sae && has_wpa && has_rsn ==> r == Security::WpaWpa2Mixed,
        !has_sae && !has_wpa && has_rsn ==> r == Security::Wpa2,
        !has_sae && has_wpa && !has_rsn ==> r == Security::Wpa,
        !has_sae && !has_wpa && !has_rsn ==> r == Security::Open,
{
    if has_sae {
        Security::Wpa3
    } else if has_wpa && has_rsn {
        Security::WpaWpa2Mixed
    } else if has_rsn {
        Security::Wpa2
    } else if has_wpa {
        Security::Wpa
    } else {
        Security::Open
    }
}

impl Security {
    /// The text shown for this label in a report.
    pub fn label(&self) -> (r: &'static str)
        ensures
            r@ == label_of(*self),
    {
        match self {
            Security::Open => "Open",
            Security::Wpa => "WPA",
            Security::Wpa2 => "WPA2",
            Security::WpaWpa2Mixed => "WPA/WPA2-mixed",
            Security::Wpa3 => "WPA3",
        }
    }
}

/// The classifier is total and follows its table on all eight flag
/// combinations: no flag gives an open network, WPA alone gives WPA, RSN alone
/// gives WPA2, both give the mixed mode, and SAE gives WPA3 whatever the other
/// two flags are.
pub proof fn law_classifier_table(has_wpa: bool, has_rsn: bool)
    ensures
        security_of(false, false, false) == Security::Open,
        security_of(true, false, false) == Security::Wpa,
        security_of(false, true, false) == Security::Wpa2,
        security_of(true, true, false) == Security::WpaWpa2Mixed,
        security_of(has_wpa, has_rsn, true) == Security::Wpa3,
{
}

} // verus!
