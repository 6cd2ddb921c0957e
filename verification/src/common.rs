//! What the device client and the diff share: the request lines of the
//! device protocol, and the comparisons that decide whether a value changed.

use crate::cameras::names_of;
use crate::text::same_text;
use vstd::prelude::*;
use vstd::string::*;
use vstd::utf8::encode_utf8;

verus! {

/// Milliseconds between two polls of the device.
pub const POLLING_INTERVAL: u64 = 100;

/// The gateway that is asked where the environment names no other.
pub const DEFAULT_PIXOTOPE_ENDPOINT: &'static str = "http://127.0.0.1:16208/gateway/25.1.1";

/// The installation root that is read where the environment names no other.
pub const DEFAULT_PIXOTOPE_INSTALLATION: &'static str = "C:\\Pixotope\\25.1.1.13725";

/// The target that holds every property this library reads or writes.
pub const STORE_TARGET: &'static str = "Store";

/// Whether a byte stands for itself in a query parameter: letters, digits
/// and `-`, `.`, `_`, `~`.
pub open spec fn is_unreserved(byte: u8) -> bool {
    ||| 0x41 <= byte <= 0x5a
    ||| 0x61 <= byte <= 0x7a
    ||| 0x30 <= byte <= 0x39
    ||| byte == 0x2d
    ||| byte == 0x2e
    ||| byte == 0x5f
    ||| byte == 0x7e
}

/// The upper-case hexadecimal digit of a value below sixteen.
pub open spec fn hex_digit(value: u8) -> char {
    if value < 10 {
        (0x30 + value) as char
    } else {
        (0x37 + value) as char
    }
}

/// How one byte is written in a query parameter: as itself where it is
/// unreserved, else as `%` and its two hexadecimal digits.
pub open spec fn escaped(byte: u8) -> Seq<char> {
    if is_unreserved(byte) {
        seq![byte as char]
    } else {
        seq!['%', hex_digit(byte / 16), hex_digit(byte % 16)]
    }
}

/// Every byte escaped, in order.
pub open spec fn percent_encoded(bytes: Seq<u8>) -> Seq<char>
    decreases bytes.len(),
{
    if bytes.len() == 0 {
        Seq::empty()
    } else {
        escaped(bytes.first()) + percent_encoded(bytes.drop_first())
    }
}

/// `text` as it is written in a query parameter: its UTF-8 bytes, escaped.
pub open spec fn url_encoded(text: Seq<char>) -> Seq<char> {
    percent_encoded(encode_utf8(text))
}

/// The address that asks `endpoint` for `property` of `target`.
pub open spec fn get_url(endpoint: Seq<char>, property: Seq<char>, target: Seq<char>) -> Seq<char> {
    endpoint + "/publish?Type=Get&Name="@ + url_encoded(property) + "&Target="@ + url_encoded(
        target,
    )
}

/// The address that tells `endpoint` to set `property` of `target` to `value`.
pub open spec fn set_url(
    endpoint: Seq<char>,
    property: Seq<char>,
    value: Seq<char>,
    target: Seq<char>,
) -> Seq<char> {
    endpoint + "/publish?Type=Set&Name="@ + url_encoded(property) + "&Value="@ + url_encoded(value)
        + "&Target="@ + url_encoded(target)
}

/// Where the color-space configuration lies under `installation`.
pub open spec fn config_path(installation: Seq<char>) -> Seq<char> {
    installation + "\\Services\\VideoIO\\ocio-configs\\aces_1.1\\config.ocio"@
}

/// Escaping one more byte appends its escape.
pub proof fn lemma_percent_encoded_push(bytes: Seq<u8>, byte: u8)
    ensures
        percent_encoded(bytes.push(byte)) == percent_encoded(bytes) + escaped(byte),
    decreases bytes.len(),
{
    let more = bytes.push(byte);
    if bytes.len() == 0 {
        assert(more.first() == byte);
        assert(more.drop_first() =~= Seq::<u8>::empty());
        assert(percent_encoded(more.drop_first()) =~= Seq::<char>::empty());
        assert(percent_encoded(more) =~= escaped(byte));
        assert(percent_encoded(bytes) + escaped(byte) =~= escaped(byte));
    } else {
        assert(more.first() == bytes.first());
        assert(more.drop_first() =~= bytes.drop_first().push(byte));
        lemma_percent_encoded_push(bytes.drop_first(), byte);
        assert(escaped(bytes.first()) + (percent_encoded(bytes.drop_first()) + escaped(byte))
            =~= percent_encoded(bytes) + escaped(byte));
    }
}

/// The hexadecimal digit of `value`.
pub fn hex_digit_of(value: u8) -> (digit: char)
    requires
        value < 16,
    ensures
        digit == hex_digit(value),
{
    if value < 10 {
        (0x30 + value) as char
    } else {
        (0x37 + value) as char
    }
}

/// Appends `text` to `url`, written as a query parameter.
pub fn push_url_encoded(url: &mut String, text: &str)
    ensures
        final(url)@ == old(url)@ + url_encoded(text@),
{
    let bytes = text.as_bytes();
    let ghost start = url@;
    let mut i: usize = 0;
    proof {
        assert(bytes@.take(0) =~= Seq::<u8>::empty());
        assert(start + percent_encoded(bytes@.take(0)) =~= start);
    }
    while i < bytes.len()
        invariant
            i <= bytes.len(),
            bytes@ == encode_utf8(text@),
            url@ == start + percent_encoded(bytes@.take(i as int)),
        decreases bytes.len() - i,
    {
        let byte = bytes[i];
        let ghost before = url@;
        proof {
            lemma_percent_encoded_push(bytes@.take(i as int), byte);
            assert(bytes@.take(i + 1) =~= bytes@.take(i as int).push(byte));
        }
        if (0x41 <= byte && byte <= 0x5a) || (0x61 <= byte && byte <= 0x7a) || (0x30 <= byte && byte
            <= 0x39) || byte == 0x2d || byte == 0x2e || byte == 0x5f || byte == 0x7e {
            url.push(byte as char);
            assert(url@ =~= before + escaped(byte));
        } else {
            url.push('%');
            url.push(hex_digit_of(byte / 16));
            url.push(hex_digit_of(byte % 16));
            assert(url@ =~= before + escaped(byte));
        }
        proof {
            assert(start + percent_encoded(bytes@.take(i as int)) + escaped(byte) =~= start + (
            percent_encoded(bytes@.take(i as int)) + escaped(byte)));
        }
        i += 1;
    }
    proof {
        assert(bytes@.take(i as int) =~= bytes@);
    }
}

/// The address of a `Get` request.
pub fn get_property_url(endpoint: &str, property: &str, target: &str) -> (url: String)
    ensures
        url@ == get_url(endpoint@, property@, target@),
{
    let mut url = endpoint.to_owned();
    url.append("/publish?Type=Get&Name=");
    push_url_encoded(&mut url, property);
    url.append("&Target=");
    push_url_encoded(&mut url, target);
    url
}

/// The address of a `Set` request.
pub fn set_property_url(endpoint: &str, property: &str, value: &str, target: &str) -> (url: String)
    ensures
        url@ == set_url(endpoint@, property@, value@, target@),
{
    let mut url = endpoint.to_owned();
    url.append("/publish?Type=Set&Name=");
    push_url_encoded(&mut url, property);
    url.append("&Value=");
    push_url_encoded(&mut url, value);
    url.append("&Target=");
    push_url_encoded(&mut url, target);
    url
}

/// The path of the color-space configuration file.
pub fn color_space_config_path(installation: &str) -> (path: String)
    ensures
        path@ == config_path(installation@),
{
    let mut path = installation.to_owned();
    path.append("\\Services\\VideoIO\\ocio-configs\\aces_1.1\\config.ocio");
    path
}

/// One write to the device: `property` of `target` is to become `value`.
#[derive(Debug, Clone)]
pub struct SetRequest {
    pub property: String,
    pub value: String,
    pub target: String,
}

/// The mathematical content of a `SetRequest`.
pub struct SetRequestView {
    pub property: Seq<char>,
    pub value: Seq<char>,
    pub target: Seq<char>,
}

impl View for SetRequest {
    type V = SetRequestView;

    open spec fn view(&self) -> SetRequestView {
        SetRequestView { property: self.property@, value: self.value@, target: self.target@ }
    }
}

impl SetRequest {
    /// The address that carries this request to `endpoint`.
    pub fn url(&self, endpoint: &str) -> (url: String)
        ensures
            url@ == set_url(endpoint@, self@.property, self@.value, self@.target),
    {
        set_property_url(
            endpoint,
            self.property.as_str(),
            self.value.as_str(),
            self.target.as_str(),
        )
    }
}

/// The fresh text where it differs from the stored one.
pub open spec fn changed_text(orig: Seq<char>, new: Seq<char>) -> Option<Seq<char>> {
    if orig == new {
        None
    } else {
        Some(new)
    }
}

/// Whether two rosters hold the same names, whatever their order and however
/// often a name occurs.
pub open spec fn same_names(a: Seq<Seq<char>>, b: Seq<Seq<char>>) -> bool {
    a.to_set() == b.to_set()
}

/// The fresh roster where it differs from the stored one.
pub open spec fn changed_names(orig: Seq<Seq<char>>, new: Seq<Seq<char>>) -> Option<
    Seq<Seq<char>>,
> {
    if same_names(orig, new) {
        None
    } else {
        Some(new)
    }
}

/// Every name of `a` occurs in `b`.
pub open spec fn all_within(a: Seq<Seq<char>>, b: Seq<Seq<char>>) -> bool {
    forall|i: int| 0 <= i < a.len() ==> b.contains(#[trigger] a[i])
}

/// Two rosters hold the same names exactly when each holds the other's.
pub proof fn lemma_same_names_is_mutual_inclusion(a: Seq<Seq<char>>, b: Seq<Seq<char>>)
    ensures
        same_names(a, b) <==> all_within(a, b) && all_within(b, a),
{
    if all_within(a, b) && all_within(b, a) {
        assert forall|x: Seq<char>| a.to_set().contains(x) <==> b.to_set().contains(x) by {
            if a.contains(x) {
                let i = choose|i: int| 0 <= i < a.len() && a[i] == x;
                assert(b.contains(a[i]));
            }
            if b.contains(x) {
                let i = choose|i: int| 0 <= i < b.len() && b[i] == x;
                assert(a.contains(b[i]));
            }
        }
        assert(a.to_set() =~= b.to_set());
    }
    if same_names(a, b) {
        assert forall|i: int| 0 <= i < a.len() implies b.contains(#[trigger] a[i]) by {
            assert(a.contains(a[i]));
            assert(a.to_set().contains(a[i]));
        }
        assert forall|i: int| 0 <= i < b.len() implies a.contains(#[trigger] b[i]) by {
            assert(b.contains(b[i]));
            assert(b.to_set().contains(b[i]));
        }
    }
}

/// Whether `name` occurs among `names`.
pub fn contains_name(names: &Vec<String>, name: &str) -> (found: bool)
    ensures
        found == names_of(names@).contains(name@),
{
    let mut i: usize = 0;
    while i < names.len()
        invariant
            i <= names.len(),
            forall|j: int| 0 <= j < i ==> names_of(names@)[j] != name@,
        decreases names.len() - i,
    {
        if same_text(names[i].as_str(), name) {
            assert(names_of(names@)[i as int] == name@);
            return true;
        }
        i += 1;
    }
    false
}

/// Whether every name of `a` occurs in `b`.
pub fn names_within(a: &Vec<String>, b: &Vec<String>) -> (within: bool)
    ensures
        within == all_within(names_of(a@), names_of(b@)),
{
    let mut i: usize = 0;
    while i < a.len()
        invariant
            i <= a.len(),
            forall|j: int| 0 <= j < i ==> names_of(b@).contains(#[trigger] names_of(a@)[j]),
        decreases a.len() - i,
    {
        if !contains_name(b, a[i].as_str()) {
            assert(names_of(a@)[i as int] == a[i as int]@);
            return false;
        }
        assert(names_of(a@)[i as int] == a[i as int]@);
        i += 1;
    }
    true
}

/// Whether two rosters hold the same names.
pub fn same_roster(a: &Vec<String>, b: &Vec<String>) -> (same: bool)
    ensures
        same == same_names(names_of(a@), names_of(b@)),
{
    proof {
        lemma_same_names_is_mutual_inclusion(names_of(a@), names_of(b@));
    }
    names_within(a, b) && names_within(b, a)
}

/// Returns the fresh text when it differs from the stored one.
pub fn set_if_changed(orig: &str, new: &str) -> (changed: Option<String>)
    ensures
        changed is Some <==> changed_text(orig@, new@) is Some,
        changed is Some ==> changed->0@ == changed_text(orig@, new@)->0,
{
    if same_text(orig, new) {
        return None;
    }
    Some(new.to_owned())
}

/// Returns the fresh roster when its names differ from the stored ones.
pub fn set_vec_if_changed(orig: Vec<String>, new: Vec<String>) -> (changed: Option<Vec<String>>)
    ensures
        changed is Some <==> changed_names(names_of(orig@), names_of(new@)) is Some,
        changed is Some ==> changed->0 == new,
{
    if same_roster(&orig, &new) {
        return None;
    }
    Some(new)
}

} // verus!
