//! A network's credentials and the payload text built from them.

use vstd::prelude::*;
use vstd::string::StringExecFns;
use crate::field::{Field, base64_of, escaped, field_value, field_views, hex_of, rendered};
use crate::qr::{GenerationError, encode_qr, qr_encodable};
use crate::method::{EapMethod, Phase2, WifiMethod, eap_name, method_fields, method_name, phase2_name};

verus! {

/// A network's credentials, built once and then read.
#[derive(Debug, Clone)]
pub struct Wifi {
    ssid: String,
    kind: Option<WifiMethod>,
    hidden: bool,
    eap_method: Option<EapMethod>,
    phase2: Option<Phase2>,
    anonymous_identity: Option<String>,
    identity: Option<String>,
    password: Option<String>,
    public_key: Option<Vec<u8>>,
}

/// What a `Wifi` holds, as mathematical values.
pub struct WifiView {
    pub ssid: Seq<char>,
    pub kind: Option<WifiMethod>,
    pub hidden: bool,
    pub eap_method: Option<EapMethod>,
    pub phase2: Option<Phase2>,
    pub anonymous_identity: Option<Seq<char>>,
    pub identity: Option<Seq<char>>,
    pub password: Option<Seq<char>>,
    pub public_key: Option<Seq<u8>>,
}

pub open spec fn text_view(o: Option<String>) -> Option<Seq<char>> {
    match o {
        Some(s) => Some(s@),
        None => None,
    }
}

pub open spec fn bytes_view(o: Option<Vec<u8>>) -> Option<Seq<u8>> {
    match o {
        Some(v) => Some(v@),
        None => None,
    }
}

impl View for Wifi {
    type V = WifiView;

    closed spec fn view(&self) -> WifiView {
        WifiView {
            ssid: self.ssid@,
            kind: self.kind,
            hidden: self.hidden,
            eap_method: self.eap_method,
            phase2: self.phase2,
            anonymous_identity: text_view(self.anonymous_identity),
            identity: text_view(self.identity),
            password: text_view(self.password),
            public_key: bytes_view(self.public_key),
        }
    }
}

/// The field for an optional text value: none when it is absent.
pub open spec fn text_field(name: Seq<char>, o: Option<Seq<char>>) -> Seq<(Seq<char>, Seq<char>)> {
    match o {
        Some(s) => seq![(name, field_value(s))],
        None => seq![],
    }
}

/// The fields of the payload, in their fixed order.
pub open spec fn wifi_fields(w: WifiView) -> Seq<(Seq<char>, Seq<char>)> {
    text_fields(w) + key_field(w.public_key)
}

/// The public key's field: its bytes in base64.
pub open spec fn key_field(o: Option<Seq<u8>>) -> Seq<(Seq<char>, Seq<char>)> {
    match o {
        Some(k) => seq![("K"@, base64_of(k))],
        None => seq![],
    }
}

/// The authentication kind's fields, none when it is absent.
pub open spec fn kind_fields(o: Option<WifiMethod>) -> Seq<(Seq<char>, Seq<char>)> {
    match o {
        Some(m) => method_fields(m),
        None => seq![],
    }
}

/// `H:true` for a hidden network, nothing otherwise.
pub open spec fn hidden_field(hidden: bool) -> Seq<(Seq<char>, Seq<char>)> {
    if hidden {
        seq![("H"@, field_value("true"@))]
    } else {
        seq![]
    }
}

pub open spec fn eap_field(o: Option<EapMethod>) -> Seq<(Seq<char>, Seq<char>)> {
    match o {
        Some(e) => seq![("E"@, field_value(eap_name(e)))],
        None => seq![],
    }
}

pub open spec fn phase2_field(o: Option<Phase2>) -> Seq<(Seq<char>, Seq<char>)> {
    match o {
        Some(p) => seq![("PH2"@, field_value(phase2_name(p)))],
        None => seq![],
    }
}

/// The fields before the public key's, in their fixed order.
pub open spec fn text_fields(w: WifiView) -> Seq<(Seq<char>, Seq<char>)> {
    kind_fields(w.kind) + seq![("S"@, field_value(w.ssid))] + hidden_field(w.hidden) + eap_field(
        w.eap_method,
    ) + phase2_field(w.phase2) + text_field("A"@, w.anonymous_identity) + text_field(
        "I"@,
        w.identity,
    ) + text_field("P"@, w.password)
}

pub open spec fn present(b: bool) -> nat {
    if b {
        1
    } else {
        0
    }
}

/// One field for each value that is there, two for WPA3, and the SSID.
pub open spec fn present_count(w: WifiView) -> nat {
    (match w.kind {
        Some(WifiMethod::Wpa3) => 2nat,
        Some(_) => 1nat,
        None => 0nat,
    }) + 1 + present(w.hidden) + present(w.eap_method is Some) + present(w.phase2 is Some)
        + present(w.anonymous_identity is Some) + present(w.identity is Some) + present(
        w.password is Some,
    ) + present(w.public_key is Some)
}

/// The rendered fields one after the other.
pub open spec fn rendered_all(fs: Seq<(Seq<char>, Seq<char>)>) -> Seq<char>
    decreases fs.len(),
{
    if fs.len() == 0 {
        Seq::empty()
    } else {
        rendered_all(fs.drop_last()) + rendered(fs.last())
    }
}

/// The payload text: `WIFI:`, the fields, and a closing `;`.
pub open spec fn payload(w: WifiView) -> Seq<char> {
    "WIFI:"@ + rendered_all(wifi_fields(w)) + ";"@
}


/// A text field's value is never empty: an empty text is written `""`.
pub proof fn lemma_field_value_nonempty(s: Seq<char>)
    ensures
        field_value(s).len() > 0,
{
    reveal(field_value);
    if escaped(s).len() == 0 {
        assert(crate::field::all_lower_hex(escaped(s)));
    }
}

/// Each value that is there gives its field, WPA3 two, and nothing else
/// gives one but the SSID: an absent value leaves no empty field behind.
pub proof fn lemma_absent_fields_omitted(w: WifiView)
    ensures
        wifi_fields(w).len() == present_count(w),
{
    assert(kind_fields(w.kind).len() == match w.kind {
        Some(WifiMethod::Wpa3) => 2nat,
        Some(_) => 1nat,
        None => 0nat,
    });
    assert(hidden_field(w.hidden).len() == present(w.hidden));
    assert(eap_field(w.eap_method).len() == present(w.eap_method is Some));
    assert(phase2_field(w.phase2).len() == present(w.phase2 is Some));
    assert(text_field("A"@, w.anonymous_identity).len() == present(w.anonymous_identity is Some));
    assert(text_field("I"@, w.identity).len() == present(w.identity is Some));
    assert(text_field("P"@, w.password).len() == present(w.password is Some));
    assert(key_field(w.public_key).len() == present(w.public_key is Some));
}

/// Every payload starts with `WIFI:` and ends with `;;`: the SSID's field
/// is always there, and each field ends with `;`.
pub proof fn lemma_payload_frame(w: WifiView)
    ensures
        payload(w).len() >= 7,
        payload(w).subrange(0, 5) == "WIFI:"@,
        payload(w)[payload(w).len() - 2] == ';',
        payload(w)[payload(w).len() - 1] == ';',
{
    reveal_strlit("WIFI:");
    reveal_strlit(";");
    lemma_absent_fields_omitted(w);
    let fs = wifi_fields(w);
    let body = rendered_all(fs);
    let last = rendered(fs.last());
    assert(body == rendered_all(fs.drop_last()) + last);
    assert(last[last.len() - 1] == ';');
    assert(body[body.len() - 1] == ';');
    assert(payload(w) == "WIFI:"@ + body + ";"@);
}

pub open spec fn values_nonempty(fs: Seq<(Seq<char>, Seq<char>)>) -> bool {
    forall|i: int| 0 <= i < fs.len() ==> (#[trigger] fs[i]).1.len() > 0
}

proof fn lemma_values_nonempty_concat(a: Seq<(Seq<char>, Seq<char>)>, b: Seq<(Seq<char>, Seq<char>)>)
    requires
        values_nonempty(a),
        values_nonempty(b),
    ensures
        values_nonempty(a + b),
{
    assert forall|i: int| 0 <= i < (a + b).len() implies (#[trigger] (a + b)[i]).1.len() > 0 by {
        if i >= a.len() {
            assert((a + b)[i] == b[i - a.len()]);
        }
    }
}

proof fn lemma_text_field_nonempty(name: Seq<char>, o: Option<Seq<char>>)
    ensures
        values_nonempty(text_field(name, o)),
{
    if let Some(s) = o {
        lemma_field_value_nonempty(s);
    }
}

/// Every field but the public key's has a value that is not empty.
pub proof fn lemma_text_values_nonempty(w: WifiView)
    ensures
        values_nonempty(text_fields(w)),
{
    lemma_field_value_nonempty(w.ssid);
    lemma_field_value_nonempty("true"@);
    if let Some(m) = w.kind {
        lemma_field_value_nonempty(method_name(m));
        assert(hex_of(seq![1u8]).len() == 1) by {
            assert(seq![1u8].drop_last() =~= Seq::<u8>::empty());
            reveal_with_fuel(hex_of, 2);
        }
    }
    if let Some(e) = w.eap_method {
        lemma_field_value_nonempty(eap_name(e));
    }
    if let Some(p) = w.phase2 {
        lemma_field_value_nonempty(phase2_name(p));
    }
    lemma_text_field_nonempty("A"@, w.anonymous_identity);
    lemma_text_field_nonempty("I"@, w.identity);
    lemma_text_field_nonempty("P"@, w.password);
    let s1 = kind_fields(w.kind);
    let s2 = s1 + seq![("S"@, field_value(w.ssid))];
    let s3 = s2 + hidden_field(w.hidden);
    let s4 = s3 + eap_field(w.eap_method);
    let s5 = s4 + phase2_field(w.phase2);
    let s6 = s5 + text_field("A"@, w.anonymous_identity);
    let s7 = s6 + text_field("I"@, w.identity);
    assert(values_nonempty(s1));
    lemma_values_nonempty_concat(s1, seq![("S"@, field_value(w.ssid))]);
    lemma_values_nonempty_concat(s2, hidden_field(w.hidden));
    lemma_values_nonempty_concat(s3, eap_field(w.eap_method));
    lemma_values_nonempty_concat(s4, phase2_field(w.phase2));
    lemma_values_nonempty_concat(s5, text_field("A"@, w.anonymous_identity));
    lemma_values_nonempty_concat(s6, text_field("I"@, w.identity));
    lemma_values_nonempty_concat(s7, text_field("P"@, w.password));
}

impl Wifi {
    /// Credentials for the network `ssid`, with nothing else set.
    pub fn new(ssid: String) -> (r: Self)
        ensures
            r@ == (WifiView {
                ssid: ssid@,
                kind: None,
                hidden: false,
                eap_method: None,
                phase2: None,
                anonymous_identity: None,
                identity: None,
                password: None,
                public_key: None,
            }),
    {
        Self {
            ssid,
            kind: None,
            hidden: false,
            eap_method: None,
            phase2: None,
            anonymous_identity: None,
            identity: None,
            password: None,
            public_key: None,
        }
    }

    pub fn with_method(self, wifi_method: Option<WifiMethod>) -> (r: Self)
        ensures
            r@ == (WifiView { kind: wifi_method, ..self@ }),
    {
        Self { kind: wifi_method, ..self }
    }

    pub fn with_hidden(self, hidden: bool) -> (r: Self)
        ensures
            r@ == (WifiView { hidden: hidden, ..self@ }),
    {
        Self { hidden, ..self }
    }

    pub fn with_eap_method(self, eap: Option<EapMethod>) -> (r: Self)
        ensures
            r@ == (WifiView { eap_method: eap, ..self@ }),
    {
        Self { eap_method: eap, ..self }
    }

    pub fn with_phase2(self, ph2: Option<Phase2>) -> (r: Self)
        ensures
            r@ == (WifiView { phase2: ph2, ..self@ }),
    {
        Self { phase2: ph2, ..self }
    }

    pub fn with_anonymous_identity(self, anon: Option<String>) -> (r: Self)
        ensures
            r@ == (WifiView { anonymous_identity: text_view(anon), ..self@ }),
    {
        Self { anonymous_identity: anon, ..self }
    }

    pub fn with_identity(self, id: Option<String>) -> (r: Self)
        ensures
            r@ == (WifiView { identity: text_view(id), ..self@ }),
    {
        Self { identity: id, ..self }
    }

    pub fn with_password(self, pw: Option<String>) -> (r: Self)
        ensures
            r@ == (WifiView { password: text_view(pw), ..self@ }),
    {
        Self { password: pw, ..self }
    }

    pub fn with_public_key(self, pk: Option<Vec<u8>>) -> (r: Self)
        ensures
            r@ == (WifiView { public_key: bytes_view(pk), ..self@ }),
    {
        Self { public_key: pk, ..self }
    }

    /// How many fields the payload has.
    pub fn expected_field_count(&self) -> (r: usize)
        ensures
            r == wifi_fields(self@).len(),
            r == present_count(self@),
    {
        let kind: usize = match &self.kind {
            Some(WifiMethod::Wpa3) => 2,
            Some(_) => 1,
            None => 0,
        };
        let r = kind + 1 + self.hidden as usize + self.eap_method.is_some() as usize
            + self.phase2.is_some() as usize + self.anonymous_identity.is_some() as usize
            + self.identity.is_some() as usize + self.password.is_some() as usize
            + self.public_key.is_some() as usize;
        proof {
            lemma_absent_fields_omitted(self@);
        }
        r
    }

    /// The fields of the payload, in their fixed order. No value is empty
    /// unless an empty public key was given.
    pub fn fields(&self) -> (r: Vec<Field>)
        ensures
            field_views(r@) == wifi_fields(self@),
            (self@.public_key matches Some(k) ==> k.len() > 0) ==> values_nonempty(field_views(r@)),
    {
        let mut fields = self.text_fields();
        let ghost t = field_views(fields@);
        proof {
            lemma_text_values_nonempty(self@);
        }
        if let Some(pk) = &self.public_key {
            let f = Field::new_base64("K", pk.as_slice());
            proof {
                if pk@.len() > 0 {
                    lemma_values_nonempty_concat(t, seq![f@]);
                }
            }
            fields.push(f);
        }
        assert(field_views(fields@) =~= t + key_field(self@.public_key));
        fields
    }

    fn text_fields(&self) -> (r: Vec<Field>)
        ensures
            field_views(r@) == text_fields(self@),
    {
        let expected_fields = self.expected_field_count();
        let mut fields: Vec<Field> = Vec::with_capacity(expected_fields);
        let ghost w = self@;
        if let Some(kind) = &self.kind {
            kind.add_fields(&mut fields);
        }
        assert(field_views(fields@) =~= kind_fields(w.kind));
        let ghost a1 = field_views(fields@);

        push_field(&mut fields, Field::new_string("S", self.ssid.as_str()));
        let ghost a2 = field_views(fields@);
        assert(a2 =~= a1 + seq![("S"@, field_value(w.ssid))]);

        if self.hidden {
            push_field(&mut fields, Field::new_string("H", "true"));
        }
        let ghost a3 = field_views(fields@);
        assert(a3 =~= a2 + hidden_field(w.hidden));

        if let Some(eap) = &self.eap_method {
            eap.add_fields(&mut fields);
        }
        let ghost a4 = field_views(fields@);
        assert(a4 =~= a3 + eap_field(w.eap_method));

        if let Some(ph2) = &self.phase2 {
            ph2.add_fields(&mut fields);
        }
        let ghost a5 = field_views(fields@);
        assert(a5 =~= a4 + phase2_field(w.phase2));

        push_text_field(&mut fields, "A", &self.anonymous_identity);
        push_text_field(&mut fields, "I", &self.identity);
        push_text_field(&mut fields, "P", &self.password);
        proof {
            let t = text_fields(w);
            assert(t =~= a5 + text_field("A"@, w.anonymous_identity) + text_field("I"@, w.identity)
                + text_field("P"@, w.password));
        }
        fields
    }

    /// The payload text.
    pub fn to_string(&self) -> (r: String)
        ensures
            r@ == payload(self@),
    {
        let fields = self.fields();
        let mut out = String::from_str("WIFI:");
        let mut i: usize = 0;
        while i < fields.len()
            invariant
                i <= fields@.len(),
                out@ == "WIFI:"@ + rendered_all(field_views(fields@).subrange(0, i as int)),
            decreases fields@.len() - i,
        {
            let s = fields[i].to_string();
            out.append(s.as_str());
            proof {
                let fs = field_views(fields@).subrange(0, i + 1);
                assert(fs.drop_last() =~= field_views(fields@).subrange(0, i as int));
                assert(fs.last() == fields@[i as int]@);
                assert(out@ =~= "WIFI:"@ + rendered_all(fs));
            }
            i = i + 1;
        }
        out.append(";");
        assert(field_views(fields@).subrange(0, fields@.len() as int) =~= field_views(fields@));
        out
    }

    /// The QR code of the payload text; it fails, with `QrError`, exactly
    /// where the text does not fit in a QR code.
    pub fn qr_code(&self) -> (r: Result<qrcode::QrCode, GenerationError>)
        ensures
            r is Ok <==> qr_encodable(payload(self@)),
            r is Err ==> r->Err_0 is QrError,
    {
        let text = self.to_string();
        match encode_qr(text.as_str()) {
            Ok(code) => Ok(code),
            Err(e) => Err(GenerationError::QrError(e)),
        }
    }
}

fn push_field(fields: &mut Vec<Field>, f: Field)
    ensures
        field_views(final(fields)@) == field_views(old(fields)@).push(f@),
{
    fields.push(f);
    assert(field_views(final(fields)@) =~= field_views(old(fields)@).push(f@));
}

fn push_text_field(fields: &mut Vec<Field>, name: &str, value: &Option<String>)
    ensures
        field_views(final(fields)@) == field_views(old(fields)@) + text_field(name@, text_view(*value)),
{
    if let Some(v) = value {
        push_field(fields, Field::new_string(name, v.as_str()));
    }
    assert(field_views(final(fields)@) =~= field_views(old(fields)@) + text_field(name@, text_view(*value)));
}

} // verus!
