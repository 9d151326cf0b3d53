//! Kraken: form-encoded private requests signed with HMAC-SHA512, computed
//! locally so the API key and private key never reach the portal.

use vstd::prelude::*;
use vstd::string::*;
use vstd::utf8::encode_utf8;

use base64::engine::general_purpose;
use base64::Engine;
use hmac::digest::InvalidLength;
use hmac::{Hmac, Mac};
use sha2::{Digest, Sha256, Sha512};

use crate::brokers::{
    amount_or_zero, credential, credential_or_empty, is_rejection, json_get, or_zero, AccountSnapshot,
    OrderInstruction, OrderResult,
};
use crate::config::Credentials;
use crate::json::JsonValue;
use crate::text::{all_ascii, ascii_lower_char, join, same_text, to_lowercase, to_uppercase, unicode_lowercase, unicode_uppercase};

verus! {

#[verifier::external_type_specification]
#[verifier::external_body]
pub struct ExInvalidLength(InvalidLength);

#[verifier::external_type_specification]
#[verifier::external_body]
pub struct ExUrlEncodeError(serde_urlencoded::ser::Error);

/// The SHA-256 digest of `data`.
pub uninterp spec fn sha256_digest(data: Seq<u8>) -> Seq<u8>;

/// The HMAC-SHA512 tag of `message` under `key`.
pub uninterp spec fn hmac_sha512_tag(key: Seq<u8>, message: Seq<u8>) -> Seq<u8>;

/// The text of the error that standard base64 decoding reports for `text`
/// (it names the offending symbol and its offset, or the bad length or
/// padding).
pub uninterp spec fn base64_decode_error(text: Seq<char>) -> Seq<char>;

/// The character of the standard base64 alphabet for the 6-bit value `n`.
pub open spec fn base64_symbol(n: int) -> char {
    if n < 26 {
        ('A' as int + n) as char
    } else if n < 52 {
        ('a' as int + (n - 26)) as char
    } else if n < 62 {
        ('0' as int + (n - 52)) as char
    } else if n == 62 {
        '+'
    } else {
        '/'
    }
}

/// The standard base64 text of `data` (RFC 4648 alphabet, `=` padding):
/// each group of three bytes becomes four symbols, and a final group of
/// one or two bytes is padded to four.
pub open spec fn base64_encoding(data: Seq<u8>) -> Seq<char>
    decreases data.len(),
{
    if data.len() == 0 {
        Seq::empty()
    } else if data.len() == 1 {
        let a = data[0] as int;
        seq![base64_symbol(a / 4), base64_symbol((a % 4) * 16), '=', '=']
    } else if data.len() == 2 {
        let (a, b) = (data[0] as int, data[1] as int);
        seq![base64_symbol(a / 4), base64_symbol((a % 4) * 16 + b / 16), base64_symbol((b % 16) * 4), '=']
    } else {
        let (a, b, c) = (data[0] as int, data[1] as int, data[2] as int);
        seq![
            base64_symbol(a / 4),
            base64_symbol((a % 4) * 16 + b / 16),
            base64_symbol((b % 16) * 4 + c / 64),
            base64_symbol(c % 64),
        ] + base64_encoding(data.skip(3))
    }
}

/// Each 6-bit value has its own base64 symbol, and none of them is `=`.
pub proof fn lemma_base64_symbol(n: int, m: int)
    requires
        0 <= n < 64,
        0 <= m < 64,
    ensures
        base64_symbol(n) != '=',
        base64_symbol(n) == base64_symbol(m) ==> n == m,
{
    let cn = base64_symbol(n) as int;
    let cm = base64_symbol(m) as int;
    assert(cn == if n < 26 { 65 + n } else if n < 52 { 97 + (n - 26) } else if n < 62 { 48 + (n - 52) } else if n == 62 { 43 } else { 47 });
    assert(cm == if m < 26 { 65 + m } else if m < 52 { 97 + (m - 26) } else if m < 62 { 48 + (m - 52) } else if m == 62 { 43 } else { 47 });
}

/// Two values below 64 are told apart by the digits of their positional
/// split: `hi * k + lo` with `lo < k` fixes both `hi` and `lo`.
proof fn lemma_split(hi1: int, lo1: int, hi2: int, lo2: int, k: int)
    requires
        0 <= lo1 < k,
        0 <= lo2 < k,
        0 <= hi1,
        0 <= hi2,
        hi1 * k + lo1 == hi2 * k + lo2,
    ensures
        hi1 == hi2,
        lo1 == lo2,
{
    if hi1 < hi2 {
        assert(hi1 * k + k <= hi2 * k) by (nonlinear_arith)
            requires hi1 < hi2, k > 0;
    } else if hi2 < hi1 {
        assert(hi2 * k + k <= hi1 * k) by (nonlinear_arith)
            requires hi2 < hi1, k > 0;
    }
}

/// Base64 encoding loses nothing: different bytes give different texts.
pub proof fn lemma_base64_injective(x: Seq<u8>, y: Seq<u8>)
    requires
        base64_encoding(x) == base64_encoding(y),
    ensures
        x == y,
    decreases x.len(),
{
    let ex = base64_encoding(x);
    let ey = base64_encoding(y);
    if x.len() == 0 || y.len() == 0 {
        if x.len() != 0 {
            assert(ex.len() >= 4);
        }
        if y.len() != 0 {
            assert(ey.len() >= 4);
        }
        assert(x =~= y);
        return;
    }
    let (a, b) = (x[0] as int, y[0] as int);
    assert(ex[0] == ey[0]);
    assert(ex[1] == ey[1]);
    lemma_base64_symbol(a / 4, b / 4);
    if x.len() >= 2 {
        assert(ex[2] == ey[2]);
    }
    if x.len() >= 3 {
        assert(ex[3] == ey[3]);
    }
    if x.len() == 1 {
        assert(ex[2] == '=');
        if y.len() == 2 {
            lemma_base64_symbol((y[1] as int % 16) * 4, 0);
        } else if y.len() >= 3 {
            lemma_base64_symbol((y[1] as int % 16) * 4 + y[2] as int / 64, 0);
        }
        lemma_base64_symbol((a % 4) * 16, (b % 4) * 16);
        assert(a == b);
        assert(x =~= y);
    } else if x.len() == 2 {
        let (a1, b1) = (x[1] as int, y[1] as int);
        assert(ex[3] == '=');
        if y.len() == 1 {
            lemma_base64_symbol((a1 % 16) * 4, 0);
        } else if y.len() >= 3 {
            lemma_base64_symbol(y[2] as int % 64, 0);
        }
        assert(y.len() == 2);
        lemma_base64_symbol((a % 4) * 16 + a1 / 16, (b % 4) * 16 + b1 / 16);
        lemma_base64_symbol((a1 % 16) * 4, (b1 % 16) * 4);
        assert(a == b && a1 == b1);
        assert(x =~= y);
    } else {
        let (a1, b1) = (x[1] as int, y[1] as int);
        let (a2, b2) = (x[2] as int, y[2] as int);
        if y.len() == 1 {
            lemma_base64_symbol((a1 % 16) * 4 + a2 / 64, 0);
        } else if y.len() == 2 {
            lemma_base64_symbol(a2 % 64, 0);
        }
        assert(y.len() >= 3);
        lemma_base64_symbol((a % 4) * 16 + a1 / 16, (b % 4) * 16 + b1 / 16);
        lemma_base64_symbol((a1 % 16) * 4 + a2 / 64, (b1 % 16) * 4 + b2 / 64);
        lemma_base64_symbol(a2 % 64, b2 % 64);
        lemma_split(a % 4, a1 / 16, b % 4, b1 / 16, 16);
        lemma_split(a1 % 16, a2 / 64, b1 % 16, b2 / 64, 4);
        assert(a == b && a1 == b1 && a2 == b2);
        let rx = base64_encoding(x.skip(3));
        let ry = base64_encoding(y.skip(3));
        assert(ex == seq![ex[0], ex[1], ex[2], ex[3]] + rx);
        assert(ey == seq![ey[0], ey[1], ey[2], ey[3]] + ry);
        assert(rx =~= ex.skip(4));
        assert(ry =~= ey.skip(4));
        lemma_base64_injective(x.skip(3), y.skip(3));
        assert(x =~= seq![x[0], x[1], x[2]] + x.skip(3));
        assert(y =~= seq![y[0], y[1], y[2]] + y.skip(3));
    }
}

/// The bytes whose standard base64 text is `text`, if there are any (there
/// is at most one such sequence: see `lemma_base64_injective`).
pub open spec fn base64_decoding(text: Seq<char>) -> Option<Seq<u8>> {
    if exists|b: Seq<u8>| #[trigger] base64_encoding(b) == text {
        Some(choose|b: Seq<u8>| #[trigger] base64_encoding(b) == text)
    } else {
        None
    }
}

/// The digit of `n` (below 16) in upper-case hexadecimal.
pub open spec fn hex_digit(n: int) -> char {
    if n < 10 { ('0' as int + n) as char } else { ('A' as int + (n - 10)) as char }
}

/// Whether form encoding leaves the byte `b` as it is: ASCII letters and
/// digits and `*`, `-`, `.`, `_`.
pub open spec fn form_byte_kept(b: u8) -> bool {
    b == 0x2a || b == 0x2d || b == 0x2e || (0x30 <= b && b <= 0x39) || (0x41 <= b && b <= 0x5a)
        || b == 0x5f || (0x61 <= b && b <= 0x7a)
}

/// The form encoding of the bytes: kept bytes as themselves, a space as
/// `+`, every other byte as `%` and two upper-case hex digits.
pub open spec fn form_encoded_bytes(bytes: Seq<u8>) -> Seq<char>
    decreases bytes.len(),
{
    if bytes.len() == 0 {
        Seq::empty()
    } else {
        let b = bytes.last();
        let tail = if form_byte_kept(b) {
            seq![b as char]
        } else if b == 0x20 {
            seq!['+']
        } else {
            seq!['%', hex_digit(b as int / 16), hex_digit(b as int % 16)]
        };
        form_encoded_bytes(bytes.drop_last()) + tail
    }
}

/// The `application/x-www-form-urlencoded` text of the (name, value) pairs,
/// in their order: `name=value` for each, the UTF-8 bytes of both form
/// encoded, joined by `&`.
pub open spec fn form_urlencoding(pairs: Seq<(Seq<char>, Seq<char>)>) -> Seq<char>
    decreases pairs.len(),
{
    if pairs.len() == 0 {
        Seq::empty()
    } else {
        let before = form_urlencoding(pairs.drop_last());
        let pair = form_encoded_bytes(encode_utf8(pairs.last().0)) + seq!['=']
            + form_encoded_bytes(encode_utf8(pairs.last().1));
        if pairs.len() == 1 { pair } else { before + seq!['&'] + pair }
    }
}

/// Calls `sha2::Sha256::digest`; the digest is 32 bytes long.
#[verifier::external_body]
fn sha256(data: &[u8]) -> (res: Vec<u8>)
    ensures
        res@ == sha256_digest(data@),
        res@.len() == 32,
{
    Sha256::digest(data).to_vec()
}

/// Computes HMAC-SHA512 with `hmac::Hmac<Sha512>`: `new_from_slice` on the
/// key, `update` with the message, `finalize`. In hmac 0.12 `new_from_slice`
/// accepts keys of every length (longer keys are hashed first), so this
/// never returns the error; the tag is 64 bytes long.
#[verifier::external_body]
fn hmac_sha512(key: &[u8], message: &[u8]) -> (res: Result<Vec<u8>, InvalidLength>)
    ensures
        res is Ok,
        res matches Ok(tag) ==> tag@ == hmac_sha512_tag(key@, message@) && tag@.len() == 64,
{
    let mut mac = <Hmac<Sha512> as Mac>::new_from_slice(key)?;
    mac.update(message);
    Ok(mac.finalize().into_bytes().to_vec())
}

/// Renders `InvalidLength` through its `Display` impl, which writes the
/// fixed text "Invalid Length".
#[verifier::external_body]
fn invalid_length_text(e: &InvalidLength) -> (res: String)
    ensures
        res@ == "Invalid Length"@,
{
    e.to_string()
}

/// Calls `general_purpose::STANDARD.decode`, rendering a decoding error
/// through its `Display` impl. `STANDARD` requires canonical padding and
/// rejects non-zero trailing bits, so it decodes exactly the texts that the
/// standard encoding produces, each to the bytes it encodes; on any other
/// text it reports the error named by `base64_decode_error`.
#[verifier::external_body]
fn base64_decode(text: &str) -> (res: Result<Vec<u8>, String>)
    ensures
        match res {
            Ok(bytes) => base64_encoding(bytes@) == text@,
            Err(msg) => {
                &&& forall|b: Seq<u8>| #[trigger] base64_encoding(b) != text@
                &&& msg@ == base64_decode_error(text@)
            },
        },
{
    general_purpose::STANDARD.decode(text).map_err(|e| e.to_string())
}

/// Calls `general_purpose::STANDARD.encode`: the standard alphabet with
/// padding.
#[verifier::external_body]
fn base64_encode(data: &[u8]) -> (res: String)
    ensures
        res@ == base64_encoding(data@),
{
    general_purpose::STANDARD.encode(data)
}

/// The pairs as plain text.
pub open spec fn pairs_view(pairs: Seq<(String, String)>) -> Seq<(Seq<char>, Seq<char>)> {
    pairs.map_values(|p: (String, String)| (p.0@, p.1@))
}

/// Calls `serde_urlencoded::to_string` on a sequence of (name, value) string
/// pairs. The serializer accepts every such sequence (a pair of strings is a
/// supported key and value), so this never returns the error; it appends
/// each pair to a `form_urlencoded::Serializer`, which joins the pairs with
/// `&` and byte-serializes names and values.
#[verifier::external_body]
fn urlencode(pairs: &Vec<(String, String)>) -> (res: Result<String, serde_urlencoded::ser::Error>)
    ensures
        res is Ok,
        res matches Ok(s) ==> s@ == form_urlencoding(pairs_view(pairs@)),
{
    serde_urlencoded::to_string(pairs)
}

/// The UTF-8 bytes of `s`.
fn bytes_of(s: &str) -> (res: Vec<u8>)
    ensures
        res@ == encode_utf8(s@),
{
    s.as_bytes_vec()
}

/// Kraken's request signature: the base64 of the HMAC-SHA512, under the
/// base64-decoded private key, of the URL path followed by the SHA-256 of
/// the nonce followed by the form body.
pub open spec fn kraken_signature(key: Seq<u8>, urlpath: Seq<char>, postdata: Seq<char>, nonce: Seq<char>) -> Seq<char> {
    base64_encoding(hmac_sha512_tag(key, encode_utf8(urlpath) + sha256_digest(encode_utf8(nonce) + encode_utf8(postdata))))
}

/// A signed private request, ready to be posted.
pub struct SignedForm {
    /// The form fields, the nonce included, in the order they are encoded.
    pub fields: Vec<(String, String)>,
    /// The encoded form body that was signed.
    pub postdata: String,
    /// The `API-Sign` header value.
    pub signature: String,
}

/// `fields` with `key` set to `value`: the first entry with that name is
/// replaced, or the pair is appended when there is none.
pub open spec fn form_set(fields: Seq<(Seq<char>, Seq<char>)>, key: Seq<char>, value: Seq<char>) -> Seq<(Seq<char>, Seq<char>)> {
    if exists|i: int| 0 <= i < fields.len() && #[trigger] fields[i].0 == key {
        let i = choose|i: int| 0 <= i < fields.len() && #[trigger] fields[i].0 == key
            && forall|j: int| 0 <= j < i ==> #[trigger] fields[j].0 != key;
        fields.update(i, (key, value))
    } else {
        fields.push((key, value))
    }
}

/// Kraken's spot endpoint.
pub open spec fn kraken_base_url() -> Seq<char> {
    "https://api.kraken.com"@
}

/// Kraken names Bitcoin `XBT`: the pair for an upper-cased symbol.
pub open spec fn kraken_pair(upper_symbol: Seq<char>) -> Seq<char> {
    if upper_symbol == "BTCUSD"@ { "XBTUSD"@ } else { upper_symbol }
}

/// The order form Kraken receives for `order`.
pub open spec fn kraken_order_form(order: OrderInstruction) -> Seq<(Seq<char>, Seq<char>)> {
    let base = seq![
        ("pair"@, kraken_pair(unicode_uppercase(order.symbol@))),
        ("type"@, unicode_lowercase(order.side@)),
        ("ordertype"@, if unicode_lowercase(order.order_type@) == "limit"@ { "limit"@ } else { "market"@ }),
        ("volume"@, order.quantity@),
    ];
    match order.limit_price {
        Some(p) => base.push(("price"@, p@)),
        None => base,
    }
}

/// The Kraken form of an order, field by field: the pair is the upper-cased
/// symbol (Kraken names BTCUSD as XBTUSD), the side is the order's side
/// lower-cased, the order type is `limit` for a limit order and `market`
/// otherwise, the volume is the quantity, and a limit price is sent as the
/// price, last.
pub proof fn lemma_kraken_order_form(order: OrderInstruction)
    ensures
        kraken_order_form(order).len() == if order.limit_price is Some { 5int } else { 4int },
        kraken_order_form(order)[0] == ("pair"@,
            if unicode_uppercase(order.symbol@) == "BTCUSD"@ { "XBTUSD"@ } else { unicode_uppercase(order.symbol@) }),
        kraken_order_form(order)[1] == ("type"@, unicode_lowercase(order.side@)),
        kraken_order_form(order)[2] == ("ordertype"@,
            if unicode_lowercase(order.order_type@) == "limit"@ { "limit"@ } else { "market"@ }),
        kraken_order_form(order)[3] == ("volume"@, order.quantity@),
        order.limit_price matches Some(p) ==> kraken_order_form(order)[4] == ("price"@, p@),
{
}

/// Whether a Kraken reply carries a non-empty `error` array.
pub open spec fn kraken_reports_errors(data: JsonValue) -> bool {
    data.member("error"@) matches Some(JsonValue::Array(errors)) && errors@.len() > 0
}

/// The order id in a Kraken `AddOrder` reply: the first `txid` when it is a string.
pub open spec fn kraken_txid(data: JsonValue) -> Option<Seq<char>> {
    match data.member("result"@) {
        Some(result) => match result.member("txid"@) {
            Some(JsonValue::Array(ids)) => if ids@.len() > 0 {
                match ids@[0] {
                    JsonValue::Str(t) => Some(t@),
                    _ => None,
                }
            } else {
                None
            },
            _ => None,
        },
        None => None,
    }
}

/// Tests for a non-empty `error` array in a Kraken reply.
fn reports_errors(data: &JsonValue) -> (res: bool)
    ensures
        res == kraken_reports_errors(*data),
{
    match data.get("error") {
        Some(e) => match e.as_array() {
            Some(errors) => errors.len() > 0,
            None => false,
        },
        None => false,
    }
}

/// Sends orders to Kraken, signing each private request locally.
pub struct KrakenAdapter {
    api_key: String,
    private_key: String,
}

impl KrakenAdapter {
    /// The API key this adapter sends.
    pub closed spec fn key(self) -> Seq<char> {
        self.api_key@
    }

    /// The base64 private key this adapter signs with.
    pub closed spec fn secret(self) -> Seq<char> {
        self.private_key@
    }

    /// Reads `api_key` and `private_key` (empty when unset).
    pub fn new(credentials: &Credentials) -> (res: KrakenAdapter)
        ensures
            res.key() == credential_or_empty(*credentials, "api_key"@),
            res.secret() == credential_or_empty(*credentials, "private_key"@),
    {
        KrakenAdapter {
            api_key: credential(credentials, "api_key"),
            private_key: credential(credentials, "private_key"),
        }
    }

    /// The `API-Key` header value.
    pub fn api_key(&self) -> (res: &String)
        ensures
            res@ == self.key(),
    {
        &self.api_key
    }

    /// The endpoint of the private method at `urlpath`.
    pub fn url(urlpath: &str) -> (res: String)
        ensures
            res@ == kraken_base_url() + urlpath@,
    {
        join("https://api.kraken.com", urlpath)
    }

    /// Signs a private request: fails only when the private key is not valid
    /// base64 (with the decoder's error), and otherwise gives Kraken's
    /// signature of the request.
    pub fn sign(&self, urlpath: &str, postdata: &str, nonce: &str) -> (res: Result<String, String>)
        ensures
            match base64_decoding(self.secret()) {
                Some(key) => res matches Ok(sig) && sig@ == kraken_signature(key, urlpath@, postdata@, nonce@),
                None => res matches Err(e) && e@ == base64_decode_error(self.secret()),
            },
    {
        let mut hashed = bytes_of(nonce);
        let mut body = bytes_of(postdata);
        hashed.append(&mut body);
        let digest = sha256(hashed.as_slice());
        let key_bytes = match base64_decode(self.private_key.as_str()) {
            Ok(k) => k,
            Err(e) => return Err(e),
        };
        proof {
            let chosen = choose|b: Seq<u8>| #[trigger] base64_encoding(b) == self.secret();
            assert(base64_encoding(key_bytes@) == self.secret());
            lemma_base64_injective(chosen, key_bytes@);
        }
        let mut message = bytes_of(urlpath);
        let mut tail = digest;
        message.append(&mut tail);
        let tag = match hmac_sha512(key_bytes.as_slice(), message.as_slice()) {
            Ok(t) => t,
            Err(e) => return Err(invalid_length_text(&e)),
        };
        Ok(base64_encode(tag.as_slice()))
    }

    /// Prepares a private request at `urlpath`: the nonce joins the form
    /// fields, the fields are form-encoded, and the encoded body is signed.
    pub fn signed_form(&self, urlpath: &str, fields: Vec<(String, String)>, nonce: &str) -> (res: Result<SignedForm, String>)
        ensures
            match base64_decoding(self.secret()) {
                Some(key) => res matches Ok(form) && {
                    &&& pairs_view(form.fields@) == form_set(pairs_view(fields@), "nonce"@, nonce@)
                    &&& form.postdata@ == form_urlencoding(pairs_view(form.fields@))
                    &&& form.signature@ == kraken_signature(key, urlpath@, form.postdata@, nonce@)
                },
                None => res matches Err(e) && e@ == base64_decode_error(self.secret()),
            },
    {
        let mut fields = fields;
        set_field(&mut fields, "nonce".to_owned(), nonce.to_owned());
        let postdata = match urlencode(&fields) {
            Ok(p) => p,
            Err(_) => vstd::pervasive::unreached(),
        };
        let signature = self.sign(urlpath, postdata.as_str(), nonce)?;
        Ok(SignedForm { fields, postdata, signature })
    }

    /// The account snapshot in a `Balance` reply: an error when the reply
    /// reports errors (`errors_text` is the rendering of those errors),
    /// otherwise the `ZUSD` balance (zero when missing) as both the balance
    /// and the buying power.
    pub fn account_from_balance(data: &JsonValue, errors_text: String) -> (res: Result<AccountSnapshot, String>)
        ensures
            kraken_reports_errors(*data) ==> (res matches Err(e) && e == errors_text),
            !kraken_reports_errors(*data) ==> (res matches Ok(snap) && {
                let zusd = match data.member("result"@) {
                    Some(result) => result.number_member("ZUSD"@),
                    None => None,
                };
                &&& snap.account_id matches Some(id) && id@ == "kraken"@
                &&& snap.balance@ == amount_or_zero(zusd)
                &&& snap.buying_power@ == amount_or_zero(zusd)
            }),
    {
        if reports_errors(data) {
            return Err(errors_text);
        }
        let zusd = match data.get("result") {
            Some(result) => json_get(result, "ZUSD"),
            None => None,
        };
        let balance = or_zero(zusd);
        let buying_power = balance.clone();
        Ok(AccountSnapshot { account_id: Some("kraken".to_owned()), balance, buying_power })
    }

    /// The form fields of an `AddOrder` request for `order`.
    pub fn order_form(order: &OrderInstruction) -> (res: Vec<(String, String)>)
        ensures
            pairs_view(res@) == kraken_order_form(*order),
            res@.len() >= 4,
            res@[1].0@ == "type"@,
            res@[1].1@ == unicode_lowercase(order.side@),
            all_ascii(order.side@) ==> res@[1].1@ == order.side@.map_values(|c: char| ascii_lower_char(c)),
    {
        let upper = to_uppercase(order.symbol.as_str());
        let pair = if same_text(upper.as_str(), "BTCUSD") { "XBTUSD".to_owned() } else { upper };
        let lower_type = to_lowercase(order.order_type.as_str());
        let ordertype = if same_text(lower_type.as_str(), "limit") { "limit".to_owned() } else { "market".to_owned() };
        let mut form: Vec<(String, String)> = Vec::new();
        form.push(("pair".to_owned(), pair));
        let side = to_lowercase(order.side.as_str());
        form.push(("type".to_owned(), side));
        form.push(("ordertype".to_owned(), ordertype));
        form.push(("volume".to_owned(), order.quantity.clone()));
        if let Some(price) = &order.limit_price {
            form.push(("price".to_owned(), price.clone()));
        }
        assert(pairs_view(form@) =~= kraken_order_form(*order));
        form
    }

    /// What became of an order from the `AddOrder` exchange: a request that
    /// failed, or a reply that reports errors (`errors_text` is the
    /// rendering of those errors), is a rejection; otherwise the order is
    /// pending with the reply's first `txid`.
    pub fn order_result(reply: Result<JsonValue, String>, errors_text: String) -> (res: OrderResult)
        ensures
            match reply {
                Err(e) => is_rejection(res, e@),
                Ok(data) => if kraken_reports_errors(data) {
                    is_rejection(res, errors_text@)
                } else {
                    &&& res.success
                    &&& (match res.broker_order_id {
                        Some(t) => Some(t@),
                        None => None,
                    }) == kraken_txid(data)
                    &&& res.status@ == "pending_new"@
                    &&& res.error is None
                },
            },
    {
        match reply {
            Err(e) => OrderResult::rejected(e),
            Ok(data) => {
                if reports_errors(&data) {
                    return OrderResult::rejected(errors_text);
                }
                let txid = match data.get("result") {
                    Some(result) => match result.get("txid") {
                        Some(ids) => match ids.as_array() {
                            Some(list) => if list.len() > 0 {
                                match list[0].as_str() {
                                    Some(t) => Some(t.clone()),
                                    None => None,
                                }
                            } else {
                                None
                            },
                            None => None,
                        },
                        None => None,
                    },
                    None => None,
                };
                OrderResult {
                    success: true,
                    broker_order_id: txid,
                    status: "pending_new".to_owned(),
                    error: None,
                }
            },
        }
    }
}

/// Sets the form field `key` to `value` (see `form_set`).
fn set_field(fields: &mut Vec<(String, String)>, key: String, value: String)
    ensures
        pairs_view(final(fields)@) == form_set(pairs_view(old(fields)@), key@, value@),
{
    let n = fields.len();
    let mut i: usize = 0;
    while i < n
        invariant
            n == fields@.len(),
            *fields == *old(fields),
            i <= n,
            forall|j: int| 0 <= j < i ==> #[trigger] fields@[j].0@ != key@,
        decreases n - i,
    {
        if same_text(fields[i].0.as_str(), key.as_str()) {
            let ghost before = pairs_view(fields@);
            proof {
                assert(before[i as int].0 == key@);
                let c = choose|c: int| 0 <= c < before.len() && #[trigger] before[c].0 == key@
                    && forall|j: int| 0 <= j < c ==> #[trigger] before[j].0 != key@;
                if c < i {
                    assert(fields@[c].0@ == before[c].0);
                }
                if c > i {
                    assert(before[i as int].0 != key@);
                }
            }
            fields.set(i, (key, value));
            assert(pairs_view(fields@) =~= before.update(i as int, (key@, value@)));
            return;
        }
        i = i + 1;
    }
    let ghost before = pairs_view(fields@);
    proof {
        assert forall|j: int| 0 <= j < before.len() implies #[trigger] before[j].0 != key@ by {
            assert(before[j].0 == fields@[j].0@);
        }
    }
    fields.push((key, value));
    assert(pairs_view(fields@) =~= before.push((key@, value@)));
}

} // verus!
