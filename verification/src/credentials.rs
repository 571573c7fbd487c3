//! HTTP Basic credentials for the proxy.
use vstd::prelude::*;
use vstd::string::StringExecFns;
use vstd::utf8::{
    encode_utf8, encode_utf8_decode_utf8, is_ascii_chars, is_ascii_chars_encode_utf8,
};

use crate::error::{TunnelError, TunnelErrorView};
use crate::outside::{
    base64_char, base64_encode, base64_text, header_bytes, header_sensitive, is_visible,
};
use crate::text::{
    contains_char, contains_control, has_control, lemma_encode_utf8_concat,
};

verus! {

/// The longest user name, in bytes.
pub const MAX_USERNAME: usize = 255;

/// The longest password, in bytes.
pub const MAX_PASSWORD: usize = 4096;

/// Whether the proxy can be offered this user name and password: the name is not empty and holds
/// no `:`, neither is too long, and neither holds a control character.
pub open spec fn valid_credentials(username: Seq<char>, password: Seq<char>) -> bool {
    &&& username.len() > 0
    &&& encode_utf8(username).len() <= MAX_USERNAME
    &&& encode_utf8(password).len() <= MAX_PASSWORD
    &&& !username.contains(':')
    &&& !has_control(username)
    &&& !has_control(password)
}

/// The user name and the password, joined by `:`.
pub open spec fn user_pass(username: Seq<char>, password: Seq<char>) -> Seq<char> {
    username + seq![':'] + password
}

/// The value of the proxy authorization field for a user name and a password.
pub open spec fn basic_authorization(username: Seq<char>, password: Seq<char>) -> Seq<char> {
    "Basic "@ + base64_text(encode_utf8(user_pass(username, password)))
}

/// What a log may show of any credentials.
pub open spec fn credentials_text() -> Seq<char> {
    "Http3ProxyCredentials(<redacted>)"@
}

/// HTTP Basic proxy credentials. Their debug text never includes either value.
pub struct Http3ProxyCredentials {
    username: String,
    password: String,
}

impl Http3ProxyCredentials {
    pub closed spec fn username(&self) -> Seq<char> {
        self.username@
    }

    pub closed spec fn password(&self) -> Seq<char> {
        self.password@
    }

    #[verifier::type_invariant]
    closed spec fn well_formed(&self) -> bool {
        valid_credentials(self.username@, self.password@)
    }

    /// Accepts a user name and a password that can stand in a proxy authorization field.
    pub fn new(username: String, password: String) -> (created: Result<Self, TunnelError>)
        ensures
            created is Ok <==> valid_credentials(username@, password@),
            created matches Ok(credentials) ==> {
                &&& credentials.username() == username@
                &&& credentials.password() == password@
            },
            created matches Err(error) ==> error@ == TunnelErrorView::Configuration(
                "invalid HTTP/3 proxy credentials"@,
            ),
    {
        if username.as_str().is_empty() || username.as_str().as_bytes().len() > MAX_USERNAME
            || password.as_str().as_bytes().len() > MAX_PASSWORD
            || contains_char(username.as_str(), ':') || contains_control(username.as_str())
            || contains_control(password.as_str()) {
            return Err(TunnelError::configuration("invalid HTTP/3 proxy credentials"));
        }
        Ok(Http3ProxyCredentials { username, password })
    }

    /// The value of the proxy authorization field, marked as sensitive.
    pub fn header(&self) -> (value: http::HeaderValue)
        ensures
            header_bytes(value) == encode_utf8(
                basic_authorization(self.username(), self.password()),
            ),
            header_sensitive(value),
    {
        proof {
            use_type_invariant(self);
        }
        let mut joined = self.username.clone();
        joined.append(":");
        joined.append(self.password.as_str());
        proof {
            reveal_strlit(":");
            assert(":"@ =~= seq![':']);
            lemma_encode_utf8_concat(self.username@ + seq![':'], self.password@);
            lemma_encode_utf8_concat(self.username@, seq![':']);
            assert(is_ascii_chars(seq![':']));
            is_ascii_chars_encode_utf8(seq![':']);
        }
        let encoded = base64_encode(joined.as_str().as_bytes());
        let mut text = "Basic ".to_owned();
        text.append(encoded.as_str());
        proof {
            reveal_strlit("Basic ");
            lemma_base64_alphabet(encode_utf8(joined@));
        }
        assert(is_visible(text@));
        let mut value = http::HeaderValue::from_str(text.as_str()).expect(
            "base64 is a valid header value",
        );
        value.set_sensitive(true);
        value
    }

    /// What a log may show of the credentials: neither value.
    pub fn debug_text(&self) -> (text: String)
        ensures
            text@ == credentials_text(),
    {
        "Http3ProxyCredentials(<redacted>)".to_owned()
    }
}

impl Clone for Http3ProxyCredentials {
    fn clone(&self) -> (copy: Self)
        ensures
            copy == *self,
    {
        proof {
            use_type_invariant(self);
        }
        Http3ProxyCredentials { username: self.username.clone(), password: self.password.clone() }
    }
}

/// A Base64 text holds only characters of the alphabet and padding.
proof fn lemma_base64_alphabet(data: Seq<u8>)
    ensures
        is_visible(base64_text(data)),
    decreases data.len(),
{
    if data.len() >= 3 {
        lemma_base64_alphabet(data.skip(3));
    }
}

/// The six-bit value of a character of the standard Base64 alphabet.
pub open spec fn base64_value(c: char) -> int {
    if 'A' <= c <= 'Z' {
        c as int - 'A' as int
    } else if 'a' <= c <= 'z' {
        c as int - 'a' as int + 26
    } else if '0' <= c <= '9' {
        c as int - '0' as int + 52
    } else if c == '+' {
        62
    } else {
        63
    }
}

/// The alphabet has a character of its own for every six-bit value, and `=` is none of them.
proof fn lemma_base64_value(value: int)
    requires
        0 <= value < 64,
    ensures
        base64_value(base64_char(value)) == value,
        base64_char(value) != '=',
{
}

/// The first four characters of a Base64 text give back the first three bytes, and their
/// padding says how many bytes there are.
proof fn lemma_base64_group(data: Seq<u8>)
    requires
        data.len() > 0,
    ensures
        ({
            let s = base64_text(data);
            &&& s.len() >= 4
            &&& data[0] == base64_value(s[0]) * 4 + base64_value(s[1]) / 16
            &&& data.len() >= 2 <==> s[2] != '='
            &&& data.len() >= 2 ==> data[1] == base64_value(s[1]) % 16 * 16 + base64_value(s[2]) / 4
            &&& data.len() >= 3 <==> s[3] != '='
            &&& data.len() >= 3 ==> data[2] == base64_value(s[2]) % 4 * 64 + base64_value(s[3])
        }),
{
    let first: int = data[0] as int;
    let second: int = data[1] as int;
    let third: int = data[2] as int;
    lemma_base64_value(first / 4);
    lemma_base64_value(first % 4 * 16);
    lemma_base64_value(first % 4 * 16 + second / 16);
    lemma_base64_value(second % 16 * 4);
    lemma_base64_value(second % 16 * 4 + third / 64);
    lemma_base64_value(third % 64);
}

/// Different data have different Base64 texts.
proof fn lemma_base64_injective(a: Seq<u8>, b: Seq<u8>)
    requires
        base64_text(a) == base64_text(b),
    ensures
        a == b,
    decreases a.len(),
{
    let s = base64_text(a);
    if a.len() == 0 || b.len() == 0 {
        assert(a =~= b);
    } else {
        lemma_base64_group(a);
        lemma_base64_group(b);
        if a.len() >= 3 && b.len() >= 3 {
            assert(s.skip(4) =~= base64_text(a.skip(3)));
            assert(base64_text(b).skip(4) =~= base64_text(b.skip(3)));
            lemma_base64_injective(a.skip(3), b.skip(3));
            assert(a =~= a.take(3) + a.skip(3));
            assert(b =~= b.take(3) + b.skip(3));
            assert(a.take(3) =~= b.take(3));
        } else {
            assert(a =~= b);
        }
    }
}

/// What is joined can be taken apart again: a valid user name holds no `:`, so the first `:` is
/// the joint.
pub proof fn user_pass_is_unambiguous(
    username: Seq<char>,
    password: Seq<char>,
    other_username: Seq<char>,
    other_password: Seq<char>,
)
    requires
        valid_credentials(username, password),
        valid_credentials(other_username, other_password),
        user_pass(username, password) == user_pass(other_username, other_password),
    ensures
        username == other_username,
        password == other_password,
{
    let joined = user_pass(username, password);
    assert(joined[username.len() as int] == ':');
    assert(joined[other_username.len() as int] == ':');
    if username.len() < other_username.len() {
        assert(joined[username.len() as int] == other_username[username.len() as int]);
        assert(other_username.contains(':'));
    }
    if other_username.len() < username.len() {
        assert(joined[other_username.len() as int] == username[other_username.len() as int]);
        assert(username.contains(':'));
    }
    assert(username =~= joined.take(username.len() as int));
    assert(other_username =~= joined.take(username.len() as int));
    assert(password =~= joined.skip(username.len() as int + 1));
    assert(other_password =~= joined.skip(username.len() as int + 1));
}

/// Different credentials never authorize with the same field value.
pub proof fn authorization_identifies_credentials(
    username: Seq<char>,
    password: Seq<char>,
    other_username: Seq<char>,
    other_password: Seq<char>,
)
    requires
        valid_credentials(username, password),
        valid_credentials(other_username, other_password),
        basic_authorization(username, password) == basic_authorization(
            other_username,
            other_password,
        ),
    ensures
        username == other_username,
        password == other_password,
{
    let joined = user_pass(username, password);
    let other_joined = user_pass(other_username, other_password);
    let prefix = "Basic "@;
    let encoded = base64_text(encode_utf8(joined));
    let other_encoded = base64_text(encode_utf8(other_joined));
    assert(encoded =~= (prefix + encoded).skip(prefix.len() as int));
    assert(other_encoded =~= (prefix + other_encoded).skip(prefix.len() as int));
    lemma_base64_injective(encode_utf8(joined), encode_utf8(other_joined));
    encode_utf8_decode_utf8(joined);
    encode_utf8_decode_utf8(other_joined);
    user_pass_is_unambiguous(username, password, other_username, other_password);
}

/// A user name and a password are refused exactly for one of these reasons: the name is empty or
/// longer than 255 bytes, the password is longer than 4096 bytes, the name holds a `:`, or one of the
/// two holds a control character, U+0000 to U+001F or U+007F to U+009F.
pub proof fn credentials_are_refused_only_for_cause(username: Seq<char>, password: Seq<char>)
    ensures
        !valid_credentials(username, password) <==> {
            ||| username.len() == 0
            ||| encode_utf8(username).len() > 255
            ||| encode_utf8(password).len() > 4096
            ||| exists|i: int| 0 <= i < username.len() && #[trigger] username[i] == ':'
            ||| exists|i: int|
                0 <= i < username.len() && ((#[trigger] username[i]) as int <= 0x1f || 0x7f
                    <= username[i] as int <= 0x9f)
            ||| exists|i: int|
                0 <= i < password.len() && ((#[trigger] password[i]) as int <= 0x1f || 0x7f
                    <= password[i] as int <= 0x9f)
        },
{
    assert(has_control(username) <==> exists|i: int|
        0 <= i < username.len() && ((#[trigger] username[i]) as int <= 0x1f || 0x7f
            <= username[i] as int <= 0x9f));
    assert(has_control(password) <==> exists|i: int|
        0 <= i < password.len() && ((#[trigger] password[i]) as int <= 0x1f || 0x7f
            <= password[i] as int <= 0x9f));
}

/// The bytes that a Base64 text stands for.
pub open spec fn base64_bytes(text: Seq<char>) -> Seq<u8>
    decreases text.len(),
{
    if text.len() < 4 {
        seq![]
    } else {
        let first = (base64_value(text[0]) * 4 + base64_value(text[1]) / 16) as u8;
        let second = (base64_value(text[1]) % 16 * 16 + base64_value(text[2]) / 4) as u8;
        let third = (base64_value(text[2]) % 4 * 64 + base64_value(text[3])) as u8;
        if text[2] == '=' {
            seq![first]
        } else if text[3] == '=' {
            seq![first, second]
        } else {
            seq![first, second, third] + base64_bytes(text.skip(4))
        }
    }
}

proof fn lemma_base64_reads_back(data: Seq<u8>)
    ensures
        base64_bytes(base64_text(data)) == data,
        base64_text(data).len() == (data.len() + 2) / 3 * 4,
    decreases data.len(),
{
    let text = base64_text(data);
    if data.len() > 0 {
        lemma_base64_group(data);
        if data.len() >= 3 {
            lemma_base64_reads_back(data.skip(3));
            assert(text.skip(4) =~= base64_text(data.skip(3)));
            assert(base64_bytes(text) =~= data);
        } else {
            assert(base64_bytes(text) =~= data);
        }
    } else {
        assert(base64_bytes(text) =~= data);
    }
}

/// The field value is `Basic `, and behind it Base64 that reads back as the UTF-8 bytes of the user
/// name, a `:` and the password, whatever they are and however long.
pub proof fn authorization_reads_back(username: Seq<char>, password: Seq<char>)
    ensures
        ({
            let value = basic_authorization(username, password);
            let bytes = encode_utf8(username) + seq![0x3au8] + encode_utf8(password);
            &&& "Basic "@.is_prefix_of(value)
            &&& base64_bytes(value.skip(6)) == bytes
            &&& value.len() == 6 + (bytes.len() + 2) / 3 * 4
        }),
{
    let joined = user_pass(username, password);
    let encoded = base64_text(encode_utf8(joined));
    reveal_strlit("Basic ");
    assert("Basic "@.len() == 6);
    assert(basic_authorization(username, password).skip(6) =~= encoded);
    lemma_encode_utf8_concat(username + seq![':'], password);
    lemma_encode_utf8_concat(username, seq![':']);
    assert(is_ascii_chars(seq![':']));
    is_ascii_chars_encode_utf8(seq![':']);
    assert(encode_utf8(seq![':']) =~= seq![0x3au8]);
    assert(encode_utf8(joined) =~= encode_utf8(username) + seq![0x3au8] + encode_utf8(password));
    lemma_base64_reads_back(encode_utf8(joined));
}

/// Nothing of any credentials is shown.
pub proof fn shown_credentials_are_redacted()
    ensures
        credentials_text() == "Http3ProxyCredentials(<redacted>)"@,
{
}

} // verus!
