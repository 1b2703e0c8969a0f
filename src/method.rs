//! Authentication kind, EAP method and phase-2 method, and the fields each adds.

use vstd::prelude::*;
use crate::field::{Field, all_lower_hex, escaped, field_value, field_views, hex_of, rendered};

verus! {

#[derive(Debug, Clone, Copy, PartialEq, Eq, Structural)]
#[non_exhaustive]
pub enum WifiMethod {
    NoPass,
    Wep,
    /// WPA is also used for WPA2 and WPA3
    Wpa,
    Wpa2Enterprise,
    /// Same as WPA, but for devices that support it includes a flag for
    /// WPA2/WPA3 transition mode disabled, to prevent downgrade attacks
    Wpa3,
}

/// The text of the `T` field.
pub open spec fn method_name(m: WifiMethod) -> Seq<char> {
    match m {
        WifiMethod::NoPass => "nopass"@,
        WifiMethod::Wep => "WEP"@,
        WifiMethod::Wpa | WifiMethod::Wpa3 => "WPA"@,
        WifiMethod::Wpa2Enterprise => "WPA2-EAP"@,
    }
}

/// `T` with the kind's name; for WPA3 also `R` with the byte 1 in hex.
pub open spec fn method_fields(m: WifiMethod) -> Seq<(Seq<char>, Seq<char>)> {
    let t = seq![("T"@, field_value(method_name(m)))];
    if m is Wpa3 {
        t.push(("R"@, hex_of(seq![1u8])))
    } else {
        t
    }
}

/// WPA and WPA3 give the same `T:WPA;` field; only WPA3 adds `R:1;`, and
/// every other kind gives its `T` field alone.
pub proof fn lemma_wpa_and_wpa3(m: WifiMethod)
    ensures
        method_fields(m).len() == (if m is Wpa3 { 2int } else { 1int }),
        method_fields(m)[0] == method_fields(WifiMethod::Wpa)[0] <==> (m is Wpa || m is Wpa3),
        rendered(method_fields(WifiMethod::Wpa)[0]) == "T:WPA;"@,
        rendered(method_fields(WifiMethod::Wpa3)[0]) == "T:WPA;"@,
        rendered(method_fields(WifiMethod::Wpa3)[1]) == "R:1;"@,
{
    reveal(field_value);
    reveal_with_fuel(escaped, 9);
    reveal_with_fuel(hex_of, 2);
    reveal_strlit("nopass");
    reveal_strlit("WEP");
    reveal_strlit("WPA");
    reveal_strlit("WPA2-EAP");
    reveal_strlit("T:WPA;");
    reveal_strlit("R:1;");
    reveal_strlit("T");
    reveal_strlit("R");
    reveal_strlit("0123456789abcdef");
    assert(!all_lower_hex(escaped("nopass"@))) by {
        assert(escaped("nopass"@)[0] == 'n');
    }
    assert(!all_lower_hex(escaped("WEP"@))) by {
        assert(escaped("WEP"@)[0] == 'W');
    }
    assert(!all_lower_hex(escaped("WPA"@))) by {
        assert(escaped("WPA"@)[0] == 'W');
    }
    assert(!all_lower_hex(escaped("WPA2-EAP"@))) by {
        assert(escaped("WPA2-EAP"@)[0] == 'W');
    }
    assert(escaped("nopass"@) =~= "nopass"@);
    assert(escaped("WEP"@) =~= "WEP"@);
    assert(escaped("WPA"@) =~= "WPA"@);
    assert(escaped("WPA2-EAP"@) =~= "WPA2-EAP"@);
    assert(seq![1u8].drop_last() =~= Seq::<u8>::empty());
    assert(hex_of(seq![1u8]) =~= seq!['1']);
    assert(rendered(method_fields(WifiMethod::Wpa)[0]) =~= "T:WPA;"@);
    assert(rendered(method_fields(WifiMethod::Wpa3)[1]) =~= "R:1;"@);
    assert("nopass"@ != "WPA"@);
    assert("WEP"@ != "WPA"@);
    assert("WPA2-EAP"@ != "WPA"@);
}

impl WifiMethod {
    /// Appends the fields of this authentication kind.
    pub fn add_fields(&self, fields: &mut Vec<Field>)
        ensures
            field_views(final(fields)@) == field_views(old(fields)@) + method_fields(*self),
    {
        let kind = match self {
            WifiMethod::NoPass => "nopass",
            WifiMethod::Wep => "WEP",
            WifiMethod::Wpa | WifiMethod::Wpa3 => "WPA",
            WifiMethod::Wpa2Enterprise => "WPA2-EAP",
        };
        fields.push(Field::new_string("T", kind));
        if let WifiMethod::Wpa3 = self {
            let one: [u8; 1] = [1u8];
            let f = Field::new_hex("R", one.as_slice());
            assert(one@ =~= seq![1u8]);
            fields.push(f);
        }
        assert(field_views(final(fields)@) =~= field_views(old(fields)@) + method_fields(*self));
    }
}

#[derive(Debug, Clone, Copy, PartialEq, Eq, Structural)]
#[non_exhaustive]
pub enum EapMethod {
    Peap,
    Tls,
    Ttls,
    Pwd,
    Sim,
    Aka,
    AkaPrime,
}

/// The text of the `E` field.
pub open spec fn eap_name(m: EapMethod) -> Seq<char> {
    match m {
        EapMethod::Peap => "PEAP"@,
        EapMethod::Tls => "TLS"@,
        EapMethod::Ttls => "TTLS"@,
        EapMethod::Pwd => "PWD"@,
        EapMethod::Sim => "SIM"@,
        EapMethod::Aka => "AKA"@,
        EapMethod::AkaPrime => "AKA_PRIME"@,
    }
}

impl EapMethod {
    /// Appends the `E` field.
    pub fn add_fields(&self, fields: &mut Vec<Field>)
        ensures
            field_views(final(fields)@) == field_views(old(fields)@).push(
                ("E"@, field_value(eap_name(*self))),
            ),
    {
        let name = match self {
            EapMethod::Peap => "PEAP",
            EapMethod::Tls => "TLS",
            EapMethod::Ttls => "TTLS",
            EapMethod::Pwd => "PWD",
            EapMethod::Sim => "SIM",
            EapMethod::Aka => "AKA",
            EapMethod::AkaPrime => "AKA_PRIME",
        };
        fields.push(Field::new_string("E", name));
        assert(field_views(final(fields)@) =~= field_views(old(fields)@).push(
            ("E"@, field_value(eap_name(*self))),
        ));
    }
}

#[derive(Debug, Clone, Copy, PartialEq, Eq, Structural)]
#[non_exhaustive]
pub enum Phase2 {
    MsChap,
    MsChapV2,
    Pap,
    Gtc,
    Sim,
    Aka,
    AkaPrime,
}

/// The text of the `PH2` field.
pub open spec fn phase2_name(m: Phase2) -> Seq<char> {
    match m {
        Phase2::MsChap => "MSCHAP"@,
        Phase2::MsChapV2 => "MSCHAPV2"@,
        Phase2::Pap => "PAP"@,
        Phase2::Gtc => "GTC"@,
        Phase2::Sim => "SIM"@,
        Phase2::Aka => "AKA"@,
        Phase2::AkaPrime => "AKA_PRIME"@,
    }
}

impl Phase2 {
    /// Appends the `PH2` field.
    pub fn add_fields(&self, fields: &mut Vec<Field>)
        ensures
            field_views(final(fields)@) == field_views(old(fields)@).push(
                ("PH2"@, field_value(phase2_name(*self))),
            ),
    {
        let name = match self {
            Phase2::MsChap => "MSCHAP",
            Phase2::MsChapV2 => "MSCHAPV2",
            Phase2::Gtc => "GTC",
            Phase2::Sim => "SIM",
            Phase2::Aka => "AKA",
            Phase2::AkaPrime => "AKA_PRIME",
            Phase2::Pap => "PAP",
        };
        fields.push(Field::new_string("PH2", name));
        assert(field_views(final(fields)@) =~= field_views(old(fields)@).push(
            ("PH2"@, field_value(phase2_name(*self))),
        ));
    }
}

} // verus!
