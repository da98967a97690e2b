//! The JSON message envelope: every message is one JSON object with a
//! `type` discriminator, fields in a fixed order, and no whitespace — the
//! canonical form. Encoders produce exactly that form; decoders accept a
//! text only if it is the canonical encoding of the message they return, so
//! whatever a decoder hands back re-encodes to the very input.
//!
//! The canonical form of a string field is stated for plain texts: those
//! with no quote, no backslash and no control character, which need no
//! escaping. The encoders escape anything else as JSON requires; the
//! decoders refuse a text whose decoded strings would need escaping.

use vstd::prelude::*;
use crate::digits::{
    all_digits, dec_of, digit_val, digit_val_exec, is_digit, lemma_dec_of_digits,
    lemma_val_of_dec_of, lemma_val_of_prefix, u128_to_dec_chars, val_of,
};
use crate::protocol::{ClientMessage, ServerMessage};
use crate::text::{append_str_chars, str_to_chars, string_from_chars};

verus! {

broadcast use vstd::string::next_postcondition, vstd::string::axiom_spec_iter;

/// A text that needs no JSON escaping: no quote, no backslash, no control
/// character.
pub open spec fn plain(s: Seq<char>) -> bool {
    forall|i: int|
        0 <= i < s.len() ==> (#[trigger] s[i]) != '"' && s[i] != '\\' && (s[i] as u32) >= 32
}

/// The canonical JSON form of a plain string: the text between quotes.
pub open spec fn json_str(s: Seq<char>) -> Seq<char> {
    seq!['"'] + s + seq!['"']
}

/// The canonical JSON form of a signed 32-bit value.
pub open spec fn json_i32(x: int) -> Seq<char> {
    if x >= 0 {
        dec_of(x as nat)
    } else {
        seq!['-'] + dec_of((-x) as nat)
    }
}

/// An optional number: `null` when absent.
pub open spec fn json_opt_u32(o: Option<u32>) -> Seq<char> {
    match o {
        Some(v) => dec_of(v as nat),
        None => "null"@,
    }
}

/// An optional string: `null` when absent.
pub open spec fn json_opt_str(o: Option<String>) -> Seq<char> {
    match o {
        Some(s) => json_str(s@),
        None => "null"@,
    }
}

/// A boolean.
pub open spec fn json_bool(b: bool) -> Seq<char> {
    if b {
        "true"@
    } else {
        "false"@
    }
}

/// An optional boolean: `null` when absent.
pub open spec fn json_opt_bool(o: Option<bool>) -> Seq<char> {
    match o {
        Some(b) => json_bool(b),
        None => "null"@,
    }
}

/// The comma-separated items of a string array.
pub open spec fn str_items(a: Seq<String>) -> Seq<char>
    decreases a.len(),
{
    if a.len() == 0 {
        Seq::empty()
    } else if a.len() == 1 {
        json_str(a[0]@)
    } else {
        str_items(a.drop_last()) + seq![','] + json_str(a.last()@)
    }
}

/// A string array in brackets.
pub open spec fn json_str_arr(a: Seq<String>) -> Seq<char> {
    seq!['['] + str_items(a) + seq![']']
}

/// The items of the first `k + 1` strings are a prefix of the whole item
/// list, and a comma follows them whenever strings remain.
proof fn lemma_str_items_decompose(a: Seq<String>, k: int)
    requires
        0 <= k < a.len(),
    ensures
        str_items(a.take(k + 1)).len() <= str_items(a).len(),
        str_items(a).subrange(0, str_items(a.take(k + 1)).len() as int) == str_items(a.take(k + 1)),
        k + 1 < a.len() ==> str_items(a.take(k + 1)).len() < str_items(a).len() && str_items(a)[
            str_items(a.take(k + 1)).len() as int] == ',',
    decreases a.len(),
{
    if k + 1 == a.len() {
        assert(a.take(k + 1) =~= a);
        assert(str_items(a).subrange(0, str_items(a).len() as int) =~= str_items(a));
    } else {
        let al = a.drop_last();
        assert(al.take(k + 1) =~= a.take(k + 1));
        lemma_str_items_decompose(al, k);
        let pl = str_items(al.take(k + 1)).len() as int;
        assert(str_items(a) == str_items(al) + seq![','] + json_str(a.last()@));
        assert(str_items(a).subrange(0, pl) =~= str_items(al).subrange(0, pl));
        if k + 1 < al.len() {
            assert(str_items(a)[pl] == str_items(al)[pl]);
        } else {
            assert(al.take(k + 1) =~= al);
            assert(str_items(a)[pl] == ',');
        }
    }
}

/// An optional string array: `null` when absent.
pub open spec fn json_opt_str_arr(o: Option<Vec<String>>) -> Seq<char> {
    match o {
        Some(v) => json_str_arr(v@),
        None => "null"@,
    }
}

/// The comma-separated items of a byte array.
pub open spec fn byte_items(d: Seq<u8>) -> Seq<char>
    decreases d.len(),
{
    if d.len() == 0 {
        Seq::empty()
    } else if d.len() == 1 {
        dec_of(d[0] as nat)
    } else {
        byte_items(d.drop_last()) + seq![','] + dec_of(d.last() as nat)
    }
}

/// A byte array in brackets.
pub open spec fn json_byte_arr(d: Seq<u8>) -> Seq<char> {
    seq!['['] + byte_items(d) + seq![']']
}

/// The items of the first `k + 1` entries are a prefix of the whole item
/// list, and a comma follows them whenever entries remain.
proof fn lemma_byte_items_decompose(d: Seq<u8>, k: int)
    requires
        0 <= k < d.len(),
    ensures
        byte_items(d.take(k + 1)).len() <= byte_items(d).len(),
        byte_items(d).subrange(0, byte_items(d.take(k + 1)).len() as int) == byte_items(
            d.take(k + 1),
        ),
        k + 1 < d.len() ==> byte_items(d.take(k + 1)).len() < byte_items(d).len() && byte_items(
            d,
        )[byte_items(d.take(k + 1)).len() as int] == ',',
    decreases d.len(),
{
    if k + 1 == d.len() {
        assert(d.take(k + 1) =~= d);
        assert(byte_items(d).subrange(0, byte_items(d).len() as int) =~= byte_items(d));
    } else {
        let dl = d.drop_last();
        assert(dl.take(k + 1) =~= d.take(k + 1));
        lemma_byte_items_decompose(dl, k);
        let pl = byte_items(dl.take(k + 1)).len() as int;
        assert(byte_items(d) == byte_items(dl) + seq![','] + dec_of(d.last() as nat));
        assert(byte_items(d).subrange(0, pl) =~= byte_items(dl).subrange(0, pl));
        if k + 1 < dl.len() {
            assert(byte_items(d)[pl] == byte_items(dl)[pl]);
        } else {
            assert(dl.take(k + 1) =~= dl);
            assert(byte_items(d)[pl] == ',');
        }
    }
}

/// Every string an optional array holds is plain.
pub open spec fn all_plain(a: Seq<String>) -> bool {
    forall|i: int| 0 <= i < a.len() ==> plain((#[trigger] a[i])@)
}

/// Every string field of the message is plain.
pub open spec fn client_plain(m: ClientMessage) -> bool {
    match m {
        ClientMessage::SetMode { mode, screen_id, command, args, workdir, isolate_files } => {
            &&& plain(mode@)
            &&& command matches Some(c) ==> plain(c@)
            &&& args matches Some(a) ==> all_plain(a@)
            &&& workdir matches Some(w) ==> plain(w@)
        },
        ClientMessage::KeyPress { key, pressed } => plain(key@),
        _ => true,
    }
}

/// Every string field of the message is plain.
pub open spec fn server_plain(m: ServerMessage) -> bool {
    match m {
        ServerMessage::ModeSet { success, message } => plain(message@),
        ServerMessage::Error { message } => plain(message@),
        _ => true,
    }
}

/// The canonical envelope of a client message.
pub open spec fn json_of_client(m: ClientMessage) -> Seq<char> {
    match m {
        ClientMessage::SetMode { mode, screen_id, command, args, workdir, isolate_files } => {
            "{\"type\":\"SetMode\",\"mode\":"@ + json_str(mode@) + ",\"screen_id\":"@
                + json_opt_u32(screen_id) + ",\"command\":"@ + json_opt_str(command) + ",\"args\":"@
                + json_opt_str_arr(args) + ",\"workdir\":"@ + json_opt_str(workdir)
                + ",\"isolate_files\":"@ + json_opt_bool(isolate_files) + "}"@
        },
        ClientMessage::MouseMove { x, y } => {
            "{\"type\":\"MouseMove\",\"x\":"@ + json_i32(x as int) + ",\"y\":"@ + json_i32(y as int)
                + "}"@
        },
        ClientMessage::MouseClick { button, pressed } => {
            "{\"type\":\"MouseClick\",\"button\":"@ + dec_of(button as nat) + ",\"pressed\":"@
                + json_bool(pressed) + "}"@
        },
        ClientMessage::KeyPress { key, pressed } => {
            "{\"type\":\"KeyPress\",\"key\":"@ + json_str(key@) + ",\"pressed\":"@ + json_bool(
                pressed,
            ) + "}"@
        },
        ClientMessage::Ping => "{\"type\":\"Ping\"}"@,
    }
}

/// The canonical envelope of a server message.
pub open spec fn json_of_server(m: ServerMessage) -> Seq<char> {
    match m {
        ServerMessage::Frame { width, height, data } => {
            "{\"type\":\"Frame\",\"width\":"@ + dec_of(width as nat) + ",\"height\":"@ + dec_of(
                height as nat,
            ) + ",\"data\":"@ + json_byte_arr(data@) + "}"@
        },
        ServerMessage::ModeSet { success, message } => {
            "{\"type\":\"ModeSet\",\"success\":"@ + json_bool(success) + ",\"message\":"@
                + json_str(message@) + "}"@
        },
        ServerMessage::Pong => "{\"type\":\"Pong\"}"@,
        ServerMessage::Error { message } => {
            "{\"type\":\"Error\",\"message\":"@ + json_str(message@) + "}"@
        },
    }
}

/// The hexadecimal digit for `d`, used in escape sequences.
fn hex_digit_char(d: u32) -> (c: char)
    requires
        d < 16,
{
    match d {
        0 => '0',
        1 => '1',
        2 => '2',
        3 => '3',
        4 => '4',
        5 => '5',
        6 => '6',
        7 => '7',
        8 => '8',
        9 => '9',
        10 => 'a',
        11 => 'b',
        12 => 'c',
        13 => 'd',
        14 => 'e',
        _ => 'f',
    }
}

/// Appends `s` with JSON escaping; a plain text is appended unchanged.
fn escape_into(buf: &mut Vec<char>, s: &str)
    ensures
        plain(s@) ==> final(buf)@ == old(buf)@ + s@,
{
    let ghost b0: Seq<char> = buf@;
    for c in it: s.chars()
        invariant
            it.seq() == s@,
            plain(s@) ==> buf@ == b0 + it.seq().take(it.index() as int),
    {
        if c == '"' {
            buf.push('\\');
            buf.push('"');
        } else if c == '\\' {
            buf.push('\\');
            buf.push('\\');
        } else if (c as u32) < 32 {
            let code = c as u32;
            buf.push('\\');
            buf.push('u');
            buf.push('0');
            buf.push('0');
            buf.push(hex_digit_char(code / 16));
            buf.push(hex_digit_char(code % 16));
        } else {
            buf.push(c);
        }
    }
    proof {
        if plain(s@) {
            assert(buf@ =~= b0 + s@);
        }
    }
}

/// Appends a quoted, escaped string field.
fn append_json_str(buf: &mut Vec<char>, s: &str)
    ensures
        plain(s@) ==> final(buf)@ == old(buf)@ + json_str(s@),
{
    buf.push('"');
    escape_into(buf, s);
    buf.push('"');
    proof {
        if plain(s@) {
            assert(buf@ =~= old(buf)@ + json_str(s@));
        }
    }
}

/// Appends the decimal rendering of `n`.
fn append_u128(buf: &mut Vec<char>, n: u128)
    ensures
        final(buf)@ == old(buf)@ + dec_of(n as nat),
{
    let d = u128_to_dec_chars(n);
    let mut k: usize = 0;
    while k < d.len()
        invariant
            k <= d.len(),
            d@ == dec_of(n as nat),
            buf@ == old(buf)@ + d@.take(k as int),
        decreases d.len() - k,
    {
        buf.push(d[k]);
        assert(buf@ =~= old(buf)@ + d@.take(k + 1));
        k = k + 1;
    }
    assert(buf@ =~= old(buf)@ + d@);
}

/// Appends the decimal rendering of a signed value.
fn append_i32(buf: &mut Vec<char>, x: i32)
    ensures
        final(buf)@ == old(buf)@ + json_i32(x as int),
{
    if x >= 0 {
        append_u128(buf, x as u128);
    } else {
        buf.push('-');
        let ghost b1 = buf@;
        let mag: u128 = -(x as i64) as u128;
        append_u128(buf, mag);
        assert(buf@ =~= old(buf)@ + json_i32(x as int));
    }
}

/// Appends `true`, `false` or `null`.
fn append_opt_bool(buf: &mut Vec<char>, o: &Option<bool>)
    ensures
        final(buf)@ == old(buf)@ + json_opt_bool(*o),
{
    match o {
        Some(true) => append_str_chars(buf, "true"),
        Some(false) => append_str_chars(buf, "false"),
        None => append_str_chars(buf, "null"),
    }
}

/// Appends an optional number, `null` when absent.
fn append_opt_u32(buf: &mut Vec<char>, o: &Option<u32>)
    ensures
        final(buf)@ == old(buf)@ + json_opt_u32(*o),
{
    match o {
        Some(v) => append_u128(buf, *v as u128),
        None => append_str_chars(buf, "null"),
    }
}

/// Appends an optional string field, `null` when absent.
fn append_opt_str(buf: &mut Vec<char>, o: &Option<String>)
    ensures
        (o matches Some(s) ==> plain(s@)) ==> final(buf)@ == old(buf)@ + json_opt_str(*o),
{
    match o {
        Some(s) => append_json_str(buf, s.as_str()),
        None => append_str_chars(buf, "null"),
    }
}

/// Appends a string array in brackets.
fn append_str_arr(buf: &mut Vec<char>, v: &Vec<String>)
    ensures
        all_plain(v@) ==> final(buf)@ == old(buf)@ + json_str_arr(v@),
{
    buf.push('[');
    let mut k: usize = 0;
    while k < v.len()
        invariant
            k <= v.len(),
            all_plain(v@) ==> buf@ == old(buf)@ + seq!['['] + str_items(v@.take(k as int)),
        decreases v.len() - k,
    {
        if k > 0 {
            buf.push(',');
        }
        append_json_str(buf, v[k].as_str());
        proof {
            if all_plain(v@) {
                assert(v@.take(k + 1).drop_last() =~= v@.take(k as int));
                assert(v@.take(k + 1).last() == v@[k as int]);
                if k == 0 {
                    assert(buf@ =~= old(buf)@ + seq!['['] + str_items(v@.take(1)));
                } else {
                    assert(buf@ =~= old(buf)@ + seq!['['] + str_items(v@.take(k + 1)));
                }
            }
        }
        k = k + 1;
    }
    buf.push(']');
    proof {
        if all_plain(v@) {
            assert(v@.take(v@.len() as int) =~= v@);
            assert(buf@ =~= old(buf)@ + json_str_arr(v@));
        }
    }
}

/// Appends an optional string array, `null` when absent.
fn append_opt_str_arr(buf: &mut Vec<char>, o: &Option<Vec<String>>)
    ensures
        (o matches Some(a) ==> all_plain(a@)) ==> final(buf)@ == old(buf)@ + json_opt_str_arr(*o),
{
    match o {
        Some(v) => append_str_arr(buf, v),
        None => append_str_chars(buf, "null"),
    }
}

/// Appends a byte array in brackets.
fn append_byte_arr(buf: &mut Vec<char>, d: &Vec<u8>)
    ensures
        final(buf)@ == old(buf)@ + json_byte_arr(d@),
{
    buf.push('[');
    let mut k: usize = 0;
    while k < d.len()
        invariant
            k <= d.len(),
            buf@ == old(buf)@ + seq!['['] + byte_items(d@.take(k as int)),
        decreases d.len() - k,
    {
        if k > 0 {
            buf.push(',');
        }
        append_u128(buf, d[k] as u128);
        proof {
            assert(d@.take(k + 1).drop_last() =~= d@.take(k as int));
            assert(d@.take(k + 1).last() == d@[k as int]);
            if k == 0 {
                assert(buf@ =~= old(buf)@ + seq!['['] + byte_items(d@.take(1)));
            } else {
                assert(buf@ =~= old(buf)@ + seq!['['] + byte_items(d@.take(k + 1)));
            }
        }
        k = k + 1;
    }
    buf.push(']');
    proof {
        assert(d@.take(d@.len() as int) =~= d@);
        assert(buf@ =~= old(buf)@ + json_byte_arr(d@));
    }
}

/// The canonical envelope of a client message, as characters.
fn encode_client_chars(m: &ClientMessage) -> (r: Vec<char>)
    ensures
        client_plain(*m) ==> r@ == json_of_client(*m),
{
    let mut buf: Vec<char> = Vec::new();
    match m {
        ClientMessage::SetMode { mode, screen_id, command, args, workdir, isolate_files } => {
            append_str_chars(&mut buf, "{\"type\":\"SetMode\",\"mode\":");
            append_json_str(&mut buf, mode.as_str());
            append_str_chars(&mut buf, ",\"screen_id\":");
            append_opt_u32(&mut buf, screen_id);
            append_str_chars(&mut buf, ",\"command\":");
            append_opt_str(&mut buf, command);
            append_str_chars(&mut buf, ",\"args\":");
            append_opt_str_arr(&mut buf, args);
            append_str_chars(&mut buf, ",\"workdir\":");
            append_opt_str(&mut buf, workdir);
            append_str_chars(&mut buf, ",\"isolate_files\":");
            append_opt_bool(&mut buf, isolate_files);
            append_str_chars(&mut buf, "}");
            proof {
                if client_plain(*m) {
                    assert(buf@ =~= json_of_client(*m));
                }
            }
        },
        ClientMessage::MouseMove { x, y } => {
            append_str_chars(&mut buf, "{\"type\":\"MouseMove\",\"x\":");
            append_i32(&mut buf, *x);
            append_str_chars(&mut buf, ",\"y\":");
            append_i32(&mut buf, *y);
            append_str_chars(&mut buf, "}");
            assert(buf@ =~= json_of_client(*m));
        },
        ClientMessage::MouseClick { button, pressed } => {
            append_str_chars(&mut buf, "{\"type\":\"MouseClick\",\"button\":");
            append_u128(&mut buf, *button as u128);
            append_str_chars(&mut buf, ",\"pressed\":");
            append_opt_bool(&mut buf, &Some(*pressed));
            append_str_chars(&mut buf, "}");
            assert(buf@ =~= json_of_client(*m));
        },
        ClientMessage::KeyPress { key, pressed } => {
            append_str_chars(&mut buf, "{\"type\":\"KeyPress\",\"key\":");
            append_json_str(&mut buf, key.as_str());
            append_str_chars(&mut buf, ",\"pressed\":");
            append_opt_bool(&mut buf, &Some(*pressed));
            append_str_chars(&mut buf, "}");
            proof {
                if client_plain(*m) {
                    assert(buf@ =~= json_of_client(*m));
                }
            }
        },
        ClientMessage::Ping => {
            append_str_chars(&mut buf, "{\"type\":\"Ping\"}");
            assert(buf@ =~= json_of_client(*m));
        },
    }
    buf
}

/// The canonical envelope of a server message, as characters.
fn encode_server_chars(m: &ServerMessage) -> (r: Vec<char>)
    ensures
        server_plain(*m) ==> r@ == json_of_server(*m),
{
    let mut buf: Vec<char> = Vec::new();
    match m {
        ServerMessage::Frame { width, height, data } => {
            append_str_chars(&mut buf, "{\"type\":\"Frame\",\"width\":");
            append_u128(&mut buf, *width as u128);
            append_str_chars(&mut buf, ",\"height\":");
            append_u128(&mut buf, *height as u128);
            append_str_chars(&mut buf, ",\"data\":");
            append_byte_arr(&mut buf, data);
            append_str_chars(&mut buf, "}");
            assert(buf@ =~= json_of_server(*m));
        },
        ServerMessage::ModeSet { success, message } => {
            append_str_chars(&mut buf, "{\"type\":\"ModeSet\",\"success\":");
            append_opt_bool(&mut buf, &Some(*success));
            append_str_chars(&mut buf, ",\"message\":");
            append_json_str(&mut buf, message.as_str());
            append_str_chars(&mut buf, "}");
            proof {
                if server_plain(*m) {
                    assert(buf@ =~= json_of_server(*m));
                }
            }
        },
        ServerMessage::Pong => {
            append_str_chars(&mut buf, "{\"type\":\"Pong\"}");
            assert(buf@ =~= json_of_server(*m));
        },
        ServerMessage::Error { message } => {
            append_str_chars(&mut buf, "{\"type\":\"Error\",\"message\":");
            append_json_str(&mut buf, message.as_str());
            append_str_chars(&mut buf, "}");
            proof {
                if server_plain(*m) {
                    assert(buf@ =~= json_of_server(*m));
                }
            }
        },
    }
    buf
}

/// Encodes a client message into its canonical JSON envelope.
pub fn encode_client_message(m: &ClientMessage) -> (r: String)
    ensures
        client_plain(*m) ==> r@ == json_of_client(*m),
{
    let buf = encode_client_chars(m);
    string_from_chars(&buf)
}

/// Encodes a server message into its canonical JSON envelope.
pub fn encode_server_message(m: &ServerMessage) -> (r: String)
    ensures
        server_plain(*m) ==> r@ == json_of_server(*m),
{
    let buf = encode_server_chars(m);
    string_from_chars(&buf)
}

/// Whether two character vectors hold the same text.
fn chars_eq(a: &Vec<char>, b: &Vec<char>) -> (r: bool)
    ensures
        r == (a@ == b@),
{
    if a.len() != b.len() {
        return false;
    }
    let mut k: usize = 0;
    while k < a.len()
        invariant
            a@.len() == b@.len(),
            k <= a.len(),
            forall|i: int| 0 <= i < k ==> a@[i] == b@[i],
        decreases a.len() - k,
    {
        if a[k] != b[k] {
            return false;
        }
        k = k + 1;
    }
    assert(a@ =~= b@);
    true
}

/// Whether `s` holds no character that JSON would escape.
fn is_plain_str(s: &str) -> (r: bool)
    ensures
        r == plain(s@),
{
    let v = str_to_chars(s);
    let mut k: usize = 0;
    while k < v.len()
        invariant
            v@ == s@,
            k <= v.len(),
            forall|i: int|
                0 <= i < k ==> (#[trigger] v@[i]) != '"' && v@[i] != '\\' && (v@[i] as u32) >= 32,
        decreases v.len() - k,
    {
        let c = v[k];
        if c == '"' || c == '\\' || (c as u32) < 32 {
            return false;
        }
        k = k + 1;
    }
    true
}

/// Whether every string of the array is plain.
fn all_plain_exec(a: &Vec<String>) -> (r: bool)
    ensures
        r == all_plain(a@),
{
    let mut k: usize = 0;
    while k < a.len()
        invariant
            k <= a.len(),
            forall|i: int| 0 <= i < k ==> plain((#[trigger] a@[i])@),
        decreases a.len() - k,
    {
        if !is_plain_str(a[k].as_str()) {
            return false;
        }
        k = k + 1;
    }
    true
}

/// Whether every string field of the message is plain.
fn client_plain_exec(m: &ClientMessage) -> (r: bool)
    ensures
        r == client_plain(*m),
{
    match m {
        ClientMessage::SetMode { mode, screen_id, command, args, workdir, isolate_files } => {
            let mode_ok = is_plain_str(mode.as_str());
            let command_ok = match command {
                Some(c) => is_plain_str(c.as_str()),
                None => true,
            };
            let args_ok = match args {
                Some(a) => all_plain_exec(a),
                None => true,
            };
            let workdir_ok = match workdir {
                Some(w) => is_plain_str(w.as_str()),
                None => true,
            };
            mode_ok && command_ok && args_ok && workdir_ok
        },
        ClientMessage::KeyPress { key, pressed } => is_plain_str(key.as_str()),
        _ => true,
    }
}

/// Whether every string field of the message is plain.
fn server_plain_exec(m: &ServerMessage) -> (r: bool)
    ensures
        r == server_plain(*m),
{
    match m {
        ServerMessage::ModeSet { success, message } => is_plain_str(message.as_str()),
        ServerMessage::Error { message } => is_plain_str(message.as_str()),
        _ => true,
    }
}

/// Consumes `lit` at position `i` exactly when it stands there.
fn parse_lit(s: &Vec<char>, i: usize, lit: &str) -> (r: Option<usize>)
    ensures
        r matches Some(j) ==> i <= j <= s@.len() && j == i + lit@.len() && s@.subrange(
            i as int,
            j as int,
        ) == lit@,
        (i + lit@.len() <= s@.len() && s@.subrange(i as int, i + lit@.len() as int) == lit@) ==> r
            == Some((i + lit@.len()) as usize),
{
    let lv = str_to_chars(lit);
    if i > s.len() || s.len() - i < lv.len() {
        return None;
    }
    let n = s.len();
    let mut k: usize = 0;
    while k < lv.len()
        invariant
            n == s@.len(),
            lv@ == lit@,
            i + lv@.len() <= s@.len(),
            k <= lv.len(),
            forall|q: int| 0 <= q < k ==> s@[i + q] == lv@[q],
        decreases lv.len() - k,
    {
        if s[i + k] != lv[k] {
            proof {
                if i + lit@.len() <= s@.len() && s@.subrange(i as int, i + lit@.len() as int)
                    == lit@ {
                    assert(s@.subrange(i as int, i + lit@.len() as int)[k as int] == s@[i + k]);
                }
            }
            return None;
        }
        k = k + 1;
    }
    assert(s@.subrange(i as int, i + lv@.len() as int) =~= lv@);
    Some(i + lv.len())
}

/// The run of digits starting at `i` is exactly the rendering of `n`: it
/// fits the text, matches character for character, and ends the input or is
/// followed by a non-digit.
pub open spec fn number_at(s: Seq<char>, i: int, n: u64) -> bool {
    &&& i + dec_of(n as nat).len() <= s.len()
    &&& s.subrange(i, i + dec_of(n as nat).len() as int) == dec_of(n as nat)
    &&& (i + dec_of(n as nat).len() == s.len() || !is_digit(s[i + dec_of(n as nat).len() as int]))
}

/// Consumes a run of decimal digits as a number; whenever the rendering of
/// some `n` stands at `i` with a non-digit after it, the result is exactly
/// `n` with the position after its last digit.
fn parse_u64_raw(s: &Vec<char>, i: usize) -> (r: Option<(u64, usize)>)
    ensures
        r matches Some(p) ==> i < p.1 <= s@.len(),
        forall|n: u64| #[trigger]
            number_at(s@, i as int, n) ==> r == Some(
                (n, (i + dec_of(n as nat).len()) as usize),
            ),
{
    proof {
        assert forall|n: u64| #[trigger] dec_of(n as nat).len() >= 1 && all_digits(
            dec_of(n as nat),
        ) && val_of(dec_of(n as nat)) == n by {
            lemma_dec_of_digits(n as nat);
            lemma_val_of_dec_of(n as nat);
        }
    }
    if i >= s.len() {
        return None;
    }
    let n0 = s.len();
    let mut j: usize = i;
    let mut acc: u64 = 0;
    let mut any = false;
    while j < s.len() && digit_val_exec(s[j]).is_some()
        invariant
            n0 == s@.len(),
            i <= j <= s@.len(),
            any == (j > i),
            forall|q: int| i <= q < j ==> is_digit(#[trigger] s@[q]),
            acc == val_of(s@.subrange(i as int, j as int)),
        decreases s.len() - j,
    {
        let d = digit_val_exec(s[j]).unwrap();
        proof {
            assert(s@.subrange(i as int, j + 1).drop_last() =~= s@.subrange(i as int, j as int));
            assert(val_of(s@.subrange(i as int, j + 1)) == acc * 10 + digit_val(s@[j as int]));
            assert forall|n: u64| #[trigger]
                number_at(s@, i as int, n) implies j + 1 - i <= dec_of(n as nat).len() && s@.subrange(
                i as int,
                j + 1,
            ) == dec_of(n as nat).subrange(0, j + 1 - i) && val_of(s@.subrange(i as int, j + 1))
                <= n by {
                let t = dec_of(n as nat);
                lemma_dec_of_digits(n as nat);
                lemma_val_of_dec_of(n as nat);
                if j >= i + t.len() {
                    if i + t.len() == s@.len() {
                        assert(false);
                    } else {
                        assert(is_digit(s@[i + t.len() as int]));
                        assert(false);
                    }
                }
                assert(s@.subrange(i as int, j + 1) =~= t.subrange(0, j + 1 - i)) by {
                    assert forall|q: int| 0 <= q < j + 1 - i implies s@[i + q] == t[q] by {
                        assert(t[q] == s@.subrange(i as int, i + t.len() as int)[q]);
                    }
                }
                lemma_val_of_prefix(t, j + 1 - i);
                assert(t.subrange(0, j + 1 - i) =~= t.subrange(0, j + 1 - i).subrange(
                    0,
                    j + 1 - i,
                ));
                assert(val_of(t.subrange(0, j + 1 - i)) <= val_of(t));
            }
        }
        if acc > 0xffff_ffff_ffff_ffffu64 / 10 {
            return None;
        }
        acc = acc * 10;
        if acc > 0xffff_ffff_ffff_ffffu64 - (d as u64) {
            return None;
        }
        acc = acc + (d as u64);
        any = true;
        j = j + 1;
    }
    proof {
        assert forall|n: u64| #[trigger]
            number_at(s@, i as int, n) implies j == i + dec_of(n as nat).len() && acc == n by {
            let t = dec_of(n as nat);
            lemma_dec_of_digits(n as nat);
            lemma_val_of_dec_of(n as nat);
            if j > i + t.len() {
                if i + t.len() == s@.len() {
                    assert(false);
                } else {
                    assert(is_digit(s@[i + t.len() as int]));
                    assert(false);
                }
            }
            if j < i + t.len() {
                assert(j < s@.len());
                assert(!is_digit(s@[j as int]));
                assert(s@[j as int] == s@.subrange(i as int, i + t.len() as int)[j - i]);
                assert(is_digit(t[j - i]));
                assert(false);
            }
            assert(s@.subrange(i as int, j as int) =~= t);
        }
    }
    if any {
        Some((acc, j))
    } else {
        None
    }
}

/// Consumes a number no larger than `max`.
fn parse_bounded_raw(s: &Vec<char>, i: usize, max: u64) -> (r: Option<(u64, usize)>)
    ensures
        r matches Some(p) ==> i < p.1 <= s@.len() && p.0 <= max,
        forall|n: u64| #[trigger]
            number_at(s@, i as int, n) && n <= max ==> r == Some(
                (n, (i + dec_of(n as nat).len()) as usize),
            ),
{
    match parse_u64_raw(s, i) {
        Some((v, j)) => {
            if v <= max {
                Some((v, j))
            } else {
                None
            }
        },
        None => None,
    }
}

/// The rendering of the signed value `x` stands at `i`, with the input
/// ending or a non-digit after its last digit.
pub open spec fn signed_at(s: Seq<char>, i: int, x: i32) -> bool {
    &&& i + json_i32(x as int).len() <= s.len()
    &&& s.subrange(i, i + json_i32(x as int).len() as int) == json_i32(x as int)
    &&& (i + json_i32(x as int).len() == s.len() || !is_digit(
        s[i + json_i32(x as int).len() as int],
    ))
}

/// Consumes a signed 32-bit number; whenever the rendering of some `x`
/// stands at `i` with a non-digit after it, the result is exactly `x`.
fn parse_i32_raw(s: &Vec<char>, i: usize) -> (r: Option<(i32, usize)>)
    ensures
        r matches Some(p) ==> i < p.1 <= s@.len(),
        forall|x: i32| #[trigger]
            signed_at(s@, i as int, x) ==> r == Some(
                (x, (i + json_i32(x as int).len()) as usize),
            ),
{
    proof {
        assert forall|x: i32| #[trigger] signed_at(s@, i as int, x) implies (x >= 0 ==> (s@[i as int]
            != '-' && number_at(s@, i as int, x as u64))) && (x < 0 ==> (s@[i as int] == '-'
            && number_at(s@, i + 1, (-(x as int)) as u64))) by {
            lemma_dec_of_digits((if x >= 0 {
                x as int
            } else {
                -(x as int)
            }) as nat);
            if x >= 0 {
                assert(s@[i as int] == dec_of(x as nat)[0]);
                assert(is_digit(dec_of(x as nat)[0]));
            } else {
                let t = dec_of((-(x as int)) as nat);
                assert(s@[i as int] == json_i32(x as int)[0]);
                assert(s@.subrange(i + 1, i + 1 + t.len()) =~= t) by {
                    assert forall|q: int| 0 <= q < t.len() implies s@[i + 1 + q] == t[q] by {
                        assert(s@[i + 1 + q] == s@.subrange(
                            i as int,
                            i + json_i32(x as int).len() as int,
                        )[1 + q]);
                    }
                }
            }
        }
    }
    if i < s.len() && s[i] == '-' {
        match parse_bounded_raw(s, i + 1, 2147483648) {
            Some((v, j)) => Some(((-(v as i64)) as i32, j)),
            None => None,
        }
    } else {
        match parse_bounded_raw(s, i, 2147483647) {
            Some((v, j)) => Some((v as i32, j)),
            None => None,
        }
    }
}

/// Consumes `true` or `false`, exactly when one of them stands at `i`.
fn parse_bool_raw(s: &Vec<char>, i: usize) -> (r: Option<(bool, usize)>)
    ensures
        r matches Some(p) ==> i <= p.1 <= s@.len(),
        (i + "true"@.len() <= s@.len() && s@.subrange(i as int, i + "true"@.len() as int)
            == "true"@) ==> r == Some((true, (i + "true"@.len()) as usize)),
        (i + "false"@.len() <= s@.len() && s@.subrange(i as int, i + "false"@.len() as int)
            == "false"@) ==> r == Some((false, (i + "false"@.len()) as usize)),
{
    proof {
        reveal_strlit("true");
        reveal_strlit("false");
    }
    match parse_lit(s, i, "true") {
        Some(j) => {
            proof {
                if i + "false"@.len() <= s@.len() && s@.subrange(
                    i as int,
                    i + "false"@.len() as int,
                ) == "false"@ {
                    assert(s@.subrange(i as int, i + "true"@.len() as int)[0] == s@[i as int]);
                    assert(s@.subrange(i as int, i + "false"@.len() as int)[0] == s@[i as int]);
                    assert(false);
                }
            }
            Some((true, j))
        },
        None => match parse_lit(s, i, "false") {
            Some(j) => Some((false, j)),
            None => None,
        },
    }
}

/// The quoted form of the plain text `t` stands at `i`.
pub open spec fn string_at(s: Seq<char>, i: int, t: Seq<char>) -> bool {
    &&& plain(t)
    &&& i + t.len() + 2 <= s.len()
    &&& s.subrange(i, i + t.len() + 2) == json_str(t)
}

/// Consumes a quoted string, resolving escapes; whenever the quoted form of
/// a plain text stands at `i`, the result is exactly that text.
#[verifier::loop_isolation(false)]
fn parse_string_raw(s: &Vec<char>, i: usize) -> (r: Option<(Vec<char>, usize)>)
    ensures
        r matches Some(p) ==> i < p.1 <= s@.len(),
        forall|t: Seq<char>| #[trigger]
            string_at(s@, i as int, t) ==> (r matches Some(p) && p.0@ == t && p.1 == i + t.len()
                + 2),
{
    proof {
        assert forall|t: Seq<char>| #[trigger]
            string_at(s@, i as int, t) implies s@[i as int] == '"' && s@[i + 1 + t.len()] == '"'
            && (forall|q: int| i + 1 <= q < i + 1 + t.len() ==> s@[q] == t[q - i - 1]) by {
            assert(s@[i as int] == s@.subrange(i as int, i + t.len() + 2)[0]);
            assert(s@[i + 1 + t.len()] == s@.subrange(i as int, i + t.len() + 2)[t.len() + 1int]);
            assert forall|q: int| i + 1 <= q < i + 1 + t.len() implies s@[q] == t[q - i - 1] by {
                assert(s@[q] == s@.subrange(i as int, i + t.len() + 2)[q - i]);
            }
        }
    }
    if i >= s.len() {
        return None;
    }
    if s[i] != '"' {
        return None;
    }
    let mut buf: Vec<char> = Vec::new();
    let mut j: usize = i + 1;
    while j < s.len()
        invariant
            i + 1 <= j <= s.len(),
            s@[i as int] == '"',
            forall|t: Seq<char>| #[trigger]
                string_at(s@, i as int, t) ==> j <= i + 1 + t.len() && buf@ == t.take(j - i - 1),
        decreases s.len() - j,
    {
        let c = s[j];
        proof {
            assert forall|t: Seq<char>| #[trigger]
                string_at(s@, i as int, t) implies (j < i + 1 + t.len() ==> (s@[j as int] == t[j - i
                - 1] && t[j - i - 1] != '"' && t[j - i - 1] != '\\')) && (j == i + 1 + t.len()
                ==> s@[j as int] == '"') by {
            }
        }
        if c == '"' {
            proof {
                assert forall|t: Seq<char>| #[trigger]
                    string_at(s@, i as int, t) implies buf@ == t && j + 1 == i + t.len() + 2 by {
                    assert(j == i + 1 + t.len());
                    assert(t.take(t.len() as int) =~= t);
                }
            }
            return Some((buf, j + 1));
        }
        if c == '\\' {
            if j + 1 >= s.len() {
                return None;
            }
            let e = s[j + 1];
            let d: char = match e {
                'n' => '\n',
                't' => '\t',
                'r' => '\r',
                '"' => '"',
                '\\' => '\\',
                '/' => '/',
                _ => {
                    return None;
                },
            };
            buf.push(d);
            j = j + 2;
        } else {
            buf.push(c);
            proof {
                assert forall|t: Seq<char>| #[trigger]
                    string_at(s@, i as int, t) implies buf@ == t.take(j + 1 - i - 1) by {
                    assert(t.take(j + 1 - i - 1) =~= t.take(j - i - 1).push(t[j - i - 1]));
                }
            }
            j = j + 1;
        }
    }
    None
}

/// Consumes a quoted string into an owned `String`.
fn parse_string_owned(s: &Vec<char>, i: usize) -> (r: Option<(String, usize)>)
    ensures
        r matches Some(p) ==> i < p.1 <= s@.len(),
        forall|t: Seq<char>| #[trigger]
            string_at(s@, i as int, t) ==> (r matches Some(p) && p.0@ == t && p.1 == i + t.len()
                + 2),
{
    match parse_string_raw(s, i) {
        Some((v, j)) => Some((string_from_chars(&v), j)),
        None => None,
    }
}

/// Consumes `null` or a number that fits `u32`, exactly.
fn parse_opt_u32_raw(s: &Vec<char>, i: usize) -> (r: Option<(Option<u32>, usize)>)
    ensures
        r matches Some(p) ==> i <= p.1 <= s@.len(),
        (i + "null"@.len() <= s@.len() && s@.subrange(i as int, i + "null"@.len() as int)
            == "null"@) ==> r == Some((None::<u32>, (i + "null"@.len()) as usize)),
        forall|v: u32| #[trigger]
            number_at(s@, i as int, v as u64) ==> r == Some(
                (Some(v), (i + dec_of(v as nat).len()) as usize),
            ),
{
    proof {
        reveal_strlit("null");
        assert forall|v: u32| #[trigger]
            number_at(s@, i as int, v as u64) implies s@[i as int] != 'n' by {
            lemma_dec_of_digits(v as nat);
            assert(s@[i as int] == s@.subrange(i as int, i + dec_of(v as nat).len() as int)[0]);
            assert(is_digit(dec_of(v as nat)[0]));
        }
    }
    match parse_lit(s, i, "null") {
        Some(j) => {
            proof {
                assert(s@[i as int] == s@.subrange(i as int, j as int)[0]);
            }
            Some((None, j))
        },
        None => match parse_bounded_raw(s, i, 4294967295) {
            Some((v, j)) => Some((Some(v as u32), j)),
            None => None,
        },
    }
}

/// Consumes `null` or a quoted string, exactly.
fn parse_opt_str_raw(s: &Vec<char>, i: usize) -> (r: Option<(Option<String>, usize)>)
    ensures
        r matches Some(p) ==> i <= p.1 <= s@.len(),
        (i + "null"@.len() <= s@.len() && s@.subrange(i as int, i + "null"@.len() as int)
            == "null"@) ==> r == Some((None::<String>, (i + "null"@.len()) as usize)),
        forall|t: Seq<char>| #[trigger]
            string_at(s@, i as int, t) ==> (r matches Some(p) && p.0 matches Some(v) && v@ == t
                && p.1 == i + t.len() + 2),
{
    proof {
        reveal_strlit("null");
        assert forall|t: Seq<char>| #[trigger]
            string_at(s@, i as int, t) implies s@[i as int] == '"' by {
            assert(s@[i as int] == s@.subrange(i as int, i + t.len() + 2)[0]);
        }
    }
    match parse_lit(s, i, "null") {
        Some(j) => {
            proof {
                assert(s@[i as int] == s@.subrange(i as int, j as int)[0]);
            }
            Some((None, j))
        },
        None => match parse_string_owned(s, i) {
            Some((v, j)) => Some((Some(v), j)),
            None => None,
        },
    }
}

/// Consumes `null`, `true` or `false`, exactly.
fn parse_opt_bool_raw(s: &Vec<char>, i: usize) -> (r: Option<(Option<bool>, usize)>)
    ensures
        r matches Some(p) ==> i <= p.1 <= s@.len(),
        (i + "null"@.len() <= s@.len() && s@.subrange(i as int, i + "null"@.len() as int)
            == "null"@) ==> r == Some((None::<bool>, (i + "null"@.len()) as usize)),
        (i + "true"@.len() <= s@.len() && s@.subrange(i as int, i + "true"@.len() as int)
            == "true"@) ==> r == Some((Some(true), (i + "true"@.len()) as usize)),
        (i + "false"@.len() <= s@.len() && s@.subrange(i as int, i + "false"@.len() as int)
            == "false"@) ==> r == Some((Some(false), (i + "false"@.len()) as usize)),
{
    proof {
        reveal_strlit("null");
        reveal_strlit("true");
        reveal_strlit("false");
    }
    match parse_lit(s, i, "null") {
        Some(j) => {
            proof {
                assert(s@[i as int] == s@.subrange(i as int, j as int)[0]);
                if i + "true"@.len() <= s@.len() && s@.subrange(i as int, i + "true"@.len() as int)
                    == "true"@ {
                    assert(s@[i as int] == s@.subrange(i as int, i + "true"@.len() as int)[0]);
                }
                if i + "false"@.len() <= s@.len() && s@.subrange(
                    i as int,
                    i + "false"@.len() as int,
                ) == "false"@ {
                    assert(s@[i as int] == s@.subrange(i as int, i + "false"@.len() as int)[0]);
                }
            }
            Some((None, j))
        },
        None => match parse_bool_raw(s, i) {
            Some((b, j)) => Some((Some(b), j)),
            None => None,
        },
    }
}

/// The bracketed canonical string array for `a` stands at `i`.
pub open spec fn str_arr_at(s: Seq<char>, i: int, a: Seq<String>) -> bool {
    &&& all_plain(a)
    &&& i + json_str_arr(a).len() <= s.len()
    &&& s.subrange(i, i + json_str_arr(a).len() as int) == json_str_arr(a)
}

/// Consumes a bracketed array of quoted strings; whenever the canonical
/// array of some plain strings stands at `i`, the result holds exactly
/// those strings.
#[verifier::loop_isolation(false)]
fn parse_str_arr_raw(s: &Vec<char>, i: usize) -> (r: Option<(Vec<String>, usize)>)
    ensures
        r matches Some(p) ==> i < p.1 <= s@.len(),
        forall|a: Seq<String>| #[trigger]
            str_arr_at(s@, i as int, a) ==> (r matches Some(p) && p.0@.len() == a.len() && (
            forall|q: int| 0 <= q < a.len() ==> (#[trigger] p.0@[q])@ == a[q]@) && p.1 == i
                + json_str_arr(a).len()),
{
    proof {
        assert forall|a: Seq<String>| #[trigger]
            str_arr_at(s@, i as int, a) implies s@[i as int] == '[' && s@[i + 1
            + str_items(a).len()] == ']' && (forall|q: int|
            0 <= q < str_items(a).len() ==> s@[i + 1 + q] == str_items(a)[q]) && (a.len() > 0
            ==> s@[i + 1] == '"') by {
            let arr = json_str_arr(a);
            assert(s@[i as int] == s@.subrange(i as int, i + arr.len() as int)[0]);
            assert(s@[i + 1 + str_items(a).len()] == s@.subrange(i as int, i + arr.len() as int)[
                arr.len() - 1int]);
            assert forall|q: int| 0 <= q < str_items(a).len() implies s@[i + 1 + q] == str_items(
                a,
            )[q] by {
                assert(s@[i + 1 + q] == s@.subrange(i as int, i + arr.len() as int)[1 + q]);
            }
            if a.len() > 0 {
                lemma_str_items_decompose(a, 0);
                assert(a.take(1).drop_last() =~= Seq::<String>::empty());
                assert(a.take(1).len() == 1 && a.take(1)[0] == a[0]);
                assert(str_items(a.take(1)) == json_str(a[0]@));
                assert(str_items(a)[0] == str_items(a).subrange(
                    0,
                    str_items(a.take(1)).len() as int,
                )[0]);
                assert(s@[i + 1] == str_items(a)[0]);
            }
        }
    }
    if i >= s.len() {
        return None;
    }
    if s[i] != '[' {
        return None;
    }
    if i + 1 < s.len() && s[i + 1] == ']' {
        return Some((Vec::new(), i + 2));
    }
    let mut out: Vec<String> = Vec::new();
    let mut j: usize = i + 1;
    loop
        invariant
            i < j <= s@.len(),
            forall|a: Seq<String>| #[trigger]
                str_arr_at(s@, i as int, a) ==> {
                    &&& out@.len() < a.len()
                    &&& forall|q: int| 0 <= q < out@.len() ==> (#[trigger] out@[q])@ == a[q]@
                    &&& j == i + 1 + str_items(a.take(out@.len() as int)).len() + (
                    if out@.len() == 0 {
                        0int
                    } else {
                        1int
                    })
                },
        decreases s@.len() - j,
    {
        let ghost k = out@.len() as int;
        proof {
            assert forall|a: Seq<String>| #[trigger]
                str_arr_at(s@, i as int, a) implies string_at(s@, j as int, a[k]@) && j + a[k]@.len()
                + 2 == i + 1 + str_items(a.take(k + 1)).len() && (k + 1 < a.len() ==> s@[i + 1
                + str_items(a.take(k + 1)).len()] == ',') && (k + 1 == a.len() ==> s@[i + 1
                + str_items(a.take(k + 1)).len()] == ']' && i + 1 + str_items(a.take(k + 1)).len()
                + 1 == i + json_str_arr(a).len()) && i + 1 + str_items(a.take(k + 1)).len()
                < s@.len() && (k + 1 < a.len() ==> i + 2 + str_items(a.take(k + 1)).len()
                < s@.len()) by {
                let t = json_str(a[k]@);
                lemma_str_items_decompose(a, k);
                assert(a.take(k + 1).drop_last() =~= a.take(k));
                assert(a.take(k + 1).last() == a[k]);
                if k == 0 {
                    assert(str_items(a.take(1)) == t);
                } else {
                    assert(str_items(a.take(k + 1)) == str_items(a.take(k)) + seq![','] + t);
                }
                let off = j - i - 1;
                assert(s@.subrange(j as int, j + t.len()) =~= t) by {
                    assert forall|q: int| 0 <= q < t.len() implies s@[j + q] == t[q] by {
                        assert(s@[j + q] == str_items(a)[off + q]);
                        assert(str_items(a)[off + q] == str_items(a).subrange(
                            0,
                            str_items(a.take(k + 1)).len() as int,
                        )[off + q]);
                        assert(str_items(a.take(k + 1))[off + q] == t[q]);
                    }
                }
                assert(plain(a[k]@));
            }
        }
        match parse_string_owned(s, j) {
            Some((v, j2)) => {
                out.push(v);
                proof {
                    assert forall|a: Seq<String>| #[trigger]
                        str_arr_at(s@, i as int, a) implies (forall|q: int|
                        0 <= q < k + 1 ==> (#[trigger] out@[q])@ == a[q]@) && j2 == i + 1
                        + str_items(a.take(k + 1)).len() by {
                        assert(out@[k as int] == v);
                        assert(v@ == a[k]@);
                    }
                }
                if j2 < s.len() {
                    let c = s[j2];
                    if c == ',' {
                        j = j2 + 1;
                        if j >= s.len() {
                            return None;
                        }
                    } else if c == ']' {
                        return Some((out, j2 + 1));
                    } else {
                        return None;
                    }
                } else {
                    return None;
                }
            },
            None => {
                return None;
            },
        }
    }
}

/// Consumes `null` or a bracketed array of quoted strings, exactly.
fn parse_opt_str_arr_raw(s: &Vec<char>, i: usize) -> (r: Option<(Option<Vec<String>>, usize)>)
    ensures
        r matches Some(p) ==> i <= p.1 <= s@.len(),
        (i + "null"@.len() <= s@.len() && s@.subrange(i as int, i + "null"@.len() as int)
            == "null"@) ==> r == Some((None::<Vec<String>>, (i + "null"@.len()) as usize)),
        forall|a: Seq<String>| #[trigger]
            str_arr_at(s@, i as int, a) ==> (r matches Some(p) && p.0 matches Some(v) && v@.len()
                == a.len() && (forall|q: int| 0 <= q < a.len() ==> (#[trigger] v@[q])@ == a[q]@)
                && p.1 == i + json_str_arr(a).len()),
{
    proof {
        reveal_strlit("null");
        assert forall|a: Seq<String>| #[trigger]
            str_arr_at(s@, i as int, a) implies s@[i as int] == '[' by {
            assert(s@[i as int] == s@.subrange(i as int, i + json_str_arr(a).len() as int)[0]);
        }
    }
    match parse_lit(s, i, "null") {
        Some(j) => {
            proof {
                assert(s@[i as int] == s@.subrange(i as int, j as int)[0]);
            }
            Some((None, j))
        },
        None => match parse_str_arr_raw(s, i) {
            Some((v, j)) => Some((Some(v), j)),
            None => None,
        },
    }
}

/// The bracketed canonical byte array for `d` stands at `i`.
pub open spec fn bytes_at(s: Seq<char>, i: int, d: Seq<u8>) -> bool {
    &&& i + json_byte_arr(d).len() <= s.len()
    &&& s.subrange(i, i + json_byte_arr(d).len() as int) == json_byte_arr(d)
}

/// Consumes a bracketed array of numbers that fit a byte each; whenever the
/// canonical array of some `d` stands at `i`, the result is exactly `d`.
#[verifier::loop_isolation(false)]
fn parse_byte_arr_raw(s: &Vec<char>, i: usize) -> (r: Option<(Vec<u8>, usize)>)
    ensures
        r matches Some(p) ==> i < p.1 <= s@.len(),
        forall|d: Seq<u8>| #[trigger]
            bytes_at(s@, i as int, d) ==> (r matches Some(p) && p.0@ == d && p.1 == i
                + json_byte_arr(d).len()),
{
    proof {
        assert forall|d: Seq<u8>| #[trigger]
            bytes_at(s@, i as int, d) implies s@[i as int] == '[' && s@[i + 1
            + byte_items(d).len()] == ']' && (forall|q: int|
            0 <= q < byte_items(d).len() ==> s@[i + 1 + q] == byte_items(d)[q]) && (d.len() > 0
            ==> is_digit(s@[i + 1])) by {
            let arr = json_byte_arr(d);
            assert(s@[i as int] == s@.subrange(i as int, i + arr.len() as int)[0]);
            assert(s@[i + 1 + byte_items(d).len()] == s@.subrange(i as int, i + arr.len() as int)[
                arr.len() - 1int]);
            assert forall|q: int| 0 <= q < byte_items(d).len() implies s@[i + 1 + q] == byte_items(
                d,
            )[q] by {
                assert(s@[i + 1 + q] == s@.subrange(i as int, i + arr.len() as int)[1 + q]);
            }
            if d.len() > 0 {
                lemma_byte_items_decompose(d, 0);
                lemma_dec_of_digits(d[0] as nat);
                assert(d.take(1).drop_last() =~= Seq::<u8>::empty());
                assert(d.take(1).len() == 1 && d.take(1)[0] == d[0]);
                assert(byte_items(d.take(1)) == dec_of(d[0] as nat));
                assert(byte_items(d)[0] == byte_items(d).subrange(
                    0,
                    byte_items(d.take(1)).len() as int,
                )[0]);
                assert(s@[i + 1] == byte_items(d)[0]);
            }
        }
    }
    if i >= s.len() {
        return None;
    }
    if s[i] != '[' {
        return None;
    }
    if i + 1 < s.len() && s[i + 1] == ']' {
        return Some((Vec::new(), i + 2));
    }
    let mut out: Vec<u8> = Vec::new();
    let mut j: usize = i + 1;
    loop
        invariant
            i < j <= s@.len(),
            forall|d: Seq<u8>| #[trigger]
                bytes_at(s@, i as int, d) ==> {
                    &&& out@.len() < d.len()
                    &&& out@ == d.take(out@.len() as int)
                    &&& j == i + 1 + byte_items(d.take(out@.len() as int)).len() + (
                    if out@.len() == 0 {
                        0int
                    } else {
                        1int
                    })
                },
        decreases s@.len() - j,
    {
        let ghost k = out@.len() as int;
        proof {
            assert forall|d: Seq<u8>| #[trigger]
                bytes_at(s@, i as int, d) implies number_at(s@, j as int, d[k] as u64) && d[k]
                <= 255 && j + dec_of(d[k] as nat).len() == i + 1 + byte_items(d.take(k + 1)).len()
                && (k + 1 < d.len() ==> s@[i + 1 + byte_items(d.take(k + 1)).len()] == ',') && (k
                + 1 == d.len() ==> s@[i + 1 + byte_items(d.take(k + 1)).len()] == ']' && i + 1
                + byte_items(d.take(k + 1)).len() + 1 == i + json_byte_arr(d).len()) && i + 1
                + byte_items(d.take(k + 1)).len() < s@.len() && (k + 1 < d.len() ==> i + 2
                + byte_items(d.take(k + 1)).len() < s@.len()) by {
                let t = dec_of(d[k] as nat);
                lemma_byte_items_decompose(d, k);
                lemma_dec_of_digits(d[k] as nat);
                assert(d.take(k + 1).drop_last() =~= d.take(k));
                assert(d.take(k + 1).last() == d[k]);
                if k == 0 {
                    assert(byte_items(d.take(1)) == t);
                } else {
                    assert(byte_items(d.take(k + 1)) == byte_items(d.take(k)) + seq![','] + t);
                }
                let off = j - i - 1;
                assert(s@.subrange(j as int, j + t.len()) =~= t) by {
                    assert forall|q: int| 0 <= q < t.len() implies s@[j + q] == t[q] by {
                        assert(s@[j + q] == byte_items(d)[off + q]);
                        assert(byte_items(d)[off + q] == byte_items(d).subrange(
                            0,
                            byte_items(d.take(k + 1)).len() as int,
                        )[off + q]);
                        assert(byte_items(d.take(k + 1))[off + q] == t[q]);
                    }
                }
                if k + 1 < d.len() {
                    assert(s@[j + t.len()] == byte_items(d)[byte_items(d.take(k + 1)).len() as int]);
                    assert(!is_digit(','));
                } else {
                    assert(!is_digit(']'));
                }
            }
        }
        match parse_bounded_raw(s, j, 255) {
            Some((v, j2)) => {
                out.push(v as u8);
                proof {
                    assert forall|d: Seq<u8>| #[trigger]
                        bytes_at(s@, i as int, d) implies out@ == d.take(k + 1) && v == d[k]
                        && j2 == i + 1 + byte_items(d.take(k + 1)).len() by {
                        assert(out@ =~= d.take(k).push(d[k]));
                        assert(d.take(k).push(d[k]) =~= d.take(k + 1));
                    }
                }
                if j2 < s.len() {
                    let c = s[j2];
                    if c == ',' {
                        j = j2 + 1;
                        if j >= s.len() {
                            return None;
                        }
                    } else if c == ']' {
                        return Some((out, j2 + 1));
                    } else {
                        return None;
                    }
                } else {
                    return None;
                }
            },
            None => {
                return None;
            },
        }
    }
}

/// Extracts the field values of a client envelope. The text need not be
/// canonical here — the caller re-encodes and compares — but on a canonical
/// `Ping`, `MouseMove`, `MouseClick` or `KeyPress` envelope the result is
/// exactly the encoded message.
#[verifier::rlimit(40)]
fn raw_decode_client(s: &Vec<char>) -> (r: Option<ClientMessage>)
    ensures
        s@ == json_of_client(ClientMessage::Ping) ==> r == Some(ClientMessage::Ping),
        forall|x: i32, y: i32|
            s@ == #[trigger] json_of_client(ClientMessage::MouseMove { x, y }) ==> r == Some(
                ClientMessage::MouseMove { x, y },
            ),
        forall|button: u8, pressed: bool|
            s@ == #[trigger] json_of_client(ClientMessage::MouseClick { button, pressed }) ==> r
                == Some(ClientMessage::MouseClick { button, pressed }),
        forall|key: String, pressed: bool|
            plain(key@) && s@ == #[trigger] json_of_client(
                ClientMessage::KeyPress { key, pressed },
            ) ==> (r matches Some(m) && m matches ClientMessage::KeyPress { key: k2, pressed: p2 }
                && k2@ == key@ && p2 == pressed),
{
    let n0 = s.len();
    proof {
        assert(n0 == s@.len());
        reveal_strlit("{\"type\":\"Ping\"}");
        reveal_strlit("{\"type\":\"MouseMove\",\"x\":");
        reveal_strlit("{\"type\":\"MouseClick\",\"button\":");
        reveal_strlit("{\"type\":\"KeyPress\",\"key\":");
        reveal_strlit(",\"y\":");
        reveal_strlit(",\"pressed\":");
        reveal_strlit("}");
        reveal_strlit("true");
        reveal_strlit("false");
        assert forall|key: String, pressed: bool|
            plain(key@) && s@ == #[trigger] json_of_client(
                ClientMessage::KeyPress { key, pressed },
            ) implies {
            let pre = "{\"type\":\"KeyPress\",\"key\":"@;
            let mid = ",\"pressed\":"@;
            let jk = json_str(key@);
            let jp = json_bool(pressed);
            &&& s@.subrange(0, pre.len() as int) == pre
            &&& string_at(s@, pre.len() as int, key@)
            &&& s@.subrange(pre.len() + jk.len() as int, pre.len() + jk.len() + mid.len() as int)
                == mid
            &&& s@.subrange(
                pre.len() + jk.len() + mid.len() as int,
                pre.len() + jk.len() + mid.len() + jp.len() as int,
            ) == jp
            &&& s@.subrange(s@.len() - 1, s@.len() as int) == "}"@
            &&& s@.len() == pre.len() + jk.len() + mid.len() + jp.len() + 1
            &&& s@[9] == 'K'
        } by {
            let pre = "{\"type\":\"KeyPress\",\"key\":"@;
            let mid = ",\"pressed\":"@;
            let jk = json_str(key@);
            let jp = json_bool(pressed);
            assert(s@.subrange(0, pre.len() as int) =~= pre);
            assert(s@.subrange(pre.len() as int, pre.len() + jk.len() as int) =~= jk);
            assert(s@.subrange(pre.len() + jk.len() as int, pre.len() + jk.len() + mid.len() as int)
                =~= mid);
            assert(s@.subrange(
                pre.len() + jk.len() + mid.len() as int,
                pre.len() + jk.len() + mid.len() + jp.len() as int,
            ) =~= jp);
            assert(s@.subrange(s@.len() - 1, s@.len() as int) =~= "}"@);
        }
        if s@ == json_of_client(ClientMessage::Ping) {
            assert(s@.subrange(0, "{\"type\":\"Ping\"}"@.len() as int) =~= "{\"type\":\"Ping\"}"@);
        }
        assert forall|x: i32, y: i32|
            s@ == #[trigger] json_of_client(ClientMessage::MouseMove { x, y }) implies {
            let pre = "{\"type\":\"MouseMove\",\"x\":"@;
            let mid = ",\"y\":"@;
            let jx = json_i32(x as int);
            let jy = json_i32(y as int);
            &&& s@.subrange(0, pre.len() as int) == pre
            &&& signed_at(s@, pre.len() as int, x)
            &&& s@.subrange(pre.len() + jx.len() as int, pre.len() + jx.len() + mid.len() as int) == mid
            &&& signed_at(s@, pre.len() + jx.len() + mid.len() as int, y)
            &&& s@.subrange(s@.len() - 1, s@.len() as int) == "}"@
            &&& s@.len() == pre.len() + jx.len() + mid.len() + jy.len() + 1
            &&& s@[9] == 'M'
        } by {
            let pre = "{\"type\":\"MouseMove\",\"x\":"@;
            let mid = ",\"y\":"@;
            let jx = json_i32(x as int);
            let jy = json_i32(y as int);
            assert(s@.subrange(0, pre.len() as int) =~= pre);
            assert(s@.subrange(pre.len() as int, pre.len() + jx.len() as int) =~= jx);
            assert(s@.subrange(pre.len() + jx.len() as int, pre.len() + jx.len() + mid.len() as int) =~= mid);
            assert(s@.subrange(
                pre.len() + jx.len() + mid.len() as int,
                pre.len() + jx.len() + mid.len() + jy.len() as int,
            ) =~= jy);
            assert(s@.subrange(s@.len() - 1, s@.len() as int) =~= "}"@);
            assert(s@[pre.len() + jx.len() as int] == ',');
            assert(!is_digit(','));
            assert(s@[s@.len() - 1] == '}');
            assert(!is_digit('}'));
        }
        assert forall|button: u8, pressed: bool|
            s@ == #[trigger] json_of_client(
                ClientMessage::MouseClick { button, pressed },
            ) implies {
            let pre = "{\"type\":\"MouseClick\",\"button\":"@;
            let mid = ",\"pressed\":"@;
            let jb = dec_of(button as nat);
            let jp = json_bool(pressed);
            &&& s@.subrange(0, pre.len() as int) == pre
            &&& number_at(s@, pre.len() as int, button as u64)
            &&& s@.subrange(pre.len() + jb.len() as int, pre.len() + jb.len() + mid.len() as int) == mid
            &&& s@.subrange(
                pre.len() + jb.len() + mid.len() as int,
                pre.len() + jb.len() + mid.len() + jp.len() as int,
            ) == jp
            &&& s@.subrange(s@.len() - 1, s@.len() as int) == "}"@
            &&& s@.len() == pre.len() + jb.len() + mid.len() + jp.len() + 1
            &&& s@[9] == 'M'
            &&& s@[14] == 'C'
        } by {
            let pre = "{\"type\":\"MouseClick\",\"button\":"@;
            let mid = ",\"pressed\":"@;
            let jb = dec_of(button as nat);
            let jp = json_bool(pressed);
            reveal_strlit("true");
            reveal_strlit("false");
            assert(dec_of(button as nat) == jb);
            assert(s@.subrange(0, pre.len() as int) =~= pre);
            assert(s@.subrange(pre.len() as int, pre.len() + jb.len() as int) =~= jb);
            assert(s@.subrange(pre.len() + jb.len() as int, pre.len() + jb.len() + mid.len() as int) =~= mid);
            assert(s@.subrange(
                pre.len() + jb.len() + mid.len() as int,
                pre.len() + jb.len() + mid.len() + jp.len() as int,
            ) =~= jp);
            assert(s@.subrange(s@.len() - 1, s@.len() as int) =~= "}"@);
            assert(s@[pre.len() + jb.len() as int] == ',');
            assert(!is_digit(','));
            assert((button as u64) <= 255);
        }
    }
    if let Some(j) = parse_lit(s, 0, "{\"type\":\"Ping\"}") {
        if j == s.len() {
            return Some(ClientMessage::Ping);
        } else {
            return None;
        }
    }
    if let Some(j1) = parse_lit(s, 0, "{\"type\":\"MouseMove\",\"x\":") {
        let (x, j3) = match parse_i32_raw(s, j1) {
            Some(p) => p,
            None => {
                return None;
            },
        };
        let j4 = match parse_lit(s, j3, ",\"y\":") {
            Some(j) => j,
            None => {
                return None;
            },
        };
        let (y, j5) = match parse_i32_raw(s, j4) {
            Some(p) => p,
            None => {
                return None;
            },
        };
        match parse_lit(s, j5, "}") {
            Some(j) => {
                if j == s.len() {
                    return Some(ClientMessage::MouseMove { x, y });
                } else {
                    return None;
                }
            },
            None => {
                return None;
            },
        }
    }
    if let Some(j1) = parse_lit(s, 0, "{\"type\":\"MouseClick\",\"button\":") {
        let (button, j3) = match parse_bounded_raw(s, j1, 255) {
            Some(p) => p,
            None => {
                return None;
            },
        };
        let j4 = match parse_lit(s, j3, ",\"pressed\":") {
            Some(j) => j,
            None => {
                return None;
            },
        };
        let (pressed, j5) = match parse_bool_raw(s, j4) {
            Some(p) => p,
            None => {
                return None;
            },
        };
        match parse_lit(s, j5, "}") {
            Some(j) => {
                if j == s.len() {
                    return Some(ClientMessage::MouseClick { button: button as u8, pressed });
                } else {
                    return None;
                }
            },
            None => {
                return None;
            },
        }
    }
    if let Some(j1) = parse_lit(s, 0, "{\"type\":\"KeyPress\",\"key\":") {
        let (key, j3) = match parse_string_owned(s, j1) {
            Some(p) => p,
            None => {
                return None;
            },
        };
        let j4 = match parse_lit(s, j3, ",\"pressed\":") {
            Some(j) => j,
            None => {
                return None;
            },
        };
        let (pressed, j5) = match parse_bool_raw(s, j4) {
            Some(p) => p,
            None => {
                return None;
            },
        };
        match parse_lit(s, j5, "}") {
            Some(j) => {
                if j == s.len() {
                    return Some(ClientMessage::KeyPress { key, pressed });
                } else {
                    return None;
                }
            },
            None => {
                return None;
            },
        }
    }
    if let Some(j2) = parse_lit(s, 0, "{\"type\":\"SetMode\",\"mode\":") {
        let (mode, j3) = match parse_string_owned(s, j2) {
            Some(p) => p,
            None => {
                return None;
            },
        };
        let j4 = match parse_lit(s, j3, ",\"screen_id\":") {
            Some(j) => j,
            None => {
                return None;
            },
        };
        let (screen_id, j5) = match parse_opt_u32_raw(s, j4) {
            Some(p) => p,
            None => {
                return None;
            },
        };
        let j6 = match parse_lit(s, j5, ",\"command\":") {
            Some(j) => j,
            None => {
                return None;
            },
        };
        let (command, j7) = match parse_opt_str_raw(s, j6) {
            Some(p) => p,
            None => {
                return None;
            },
        };
        let j8 = match parse_lit(s, j7, ",\"args\":") {
            Some(j) => j,
            None => {
                return None;
            },
        };
        let (args, j9) = match parse_opt_str_arr_raw(s, j8) {
            Some(p) => p,
            None => {
                return None;
            },
        };
        let j10 = match parse_lit(s, j9, ",\"workdir\":") {
            Some(j) => j,
            None => {
                return None;
            },
        };
        let (workdir, j11) = match parse_opt_str_raw(s, j10) {
            Some(p) => p,
            None => {
                return None;
            },
        };
        let j12 = match parse_lit(s, j11, ",\"isolate_files\":") {
            Some(j) => j,
            None => {
                return None;
            },
        };
        let (isolate_files, j13) = match parse_opt_bool_raw(s, j12) {
            Some(p) => p,
            None => {
                return None;
            },
        };
        match parse_lit(s, j13, "}") {
            Some(j) => {
                if j == s.len() {
                    Some(
                        ClientMessage::SetMode {
                            mode,
                            screen_id,
                            command,
                            args,
                            workdir,
                            isolate_files,
                        },
                    )
                } else {
                    None
                }
            },
            None => None,
        }
    } else {
        None
    }
}

/// Extracts the field values of a server envelope. The text need not be
/// canonical here — the caller re-encodes and compares — but on a canonical
/// `Pong`, `ModeSet`, `Error` or `Frame` envelope the result is exactly the
/// encoded message.
fn raw_decode_server(s: &Vec<char>) -> (r: Option<ServerMessage>)
    ensures
        s@ == json_of_server(ServerMessage::Pong) ==> r == Some(ServerMessage::Pong),
        forall|success: bool, message: String|
            plain(message@) && s@ == #[trigger] json_of_server(
                ServerMessage::ModeSet { success, message },
            ) ==> (r matches Some(m) && m matches ServerMessage::ModeSet { success: s2, message: m2 }
                && s2 == success && m2@ == message@),
        forall|message: String|
            plain(message@) && s@ == #[trigger] json_of_server(ServerMessage::Error { message })
                ==> (r matches Some(m) && m matches ServerMessage::Error { message: m2 } && m2@
                == message@),
        forall|width: u32, height: u32, data: Vec<u8>|
            s@ == #[trigger] json_of_server(ServerMessage::Frame { width, height, data }) ==> (r
                matches Some(m) && m matches ServerMessage::Frame {
                width: w2,
                height: h2,
                data: d2,
            } && w2 == width && h2 == height && d2@ == data@),
{
    let n0 = s.len();
    proof {
        assert(n0 == s@.len());
        reveal_strlit("{\"type\":\"Pong\"}");
        reveal_strlit("{\"type\":\"Frame\",\"width\":");
        reveal_strlit("{\"type\":\"ModeSet\",\"success\":");
        reveal_strlit("{\"type\":\"Error\",\"message\":");
        reveal_strlit(",\"message\":");
        reveal_strlit(",\"height\":");
        reveal_strlit(",\"data\":");
        reveal_strlit("}");
        reveal_strlit("true");
        reveal_strlit("false");
        assert forall|width: u32, height: u32, data: Vec<u8>|
            s@ == #[trigger] json_of_server(ServerMessage::Frame { width, height, data }) implies {
            let pre = "{\"type\":\"Frame\",\"width\":"@;
            let mid1 = ",\"height\":"@;
            let mid2 = ",\"data\":"@;
            let jw = dec_of(width as nat);
            let jh = dec_of(height as nat);
            let ja = json_byte_arr(data@);
            &&& s@.subrange(0, pre.len() as int) == pre
            &&& number_at(s@, pre.len() as int, width as u64)
            &&& s@.subrange(pre.len() + jw.len() as int, pre.len() + jw.len() + mid1.len() as int)
                == mid1
            &&& number_at(s@, pre.len() + jw.len() + mid1.len() as int, height as u64)
            &&& s@.subrange(
                pre.len() + jw.len() + mid1.len() + jh.len() as int,
                pre.len() + jw.len() + mid1.len() + jh.len() + mid2.len() as int,
            ) == mid2
            &&& bytes_at(
                s@,
                pre.len() + jw.len() + mid1.len() + jh.len() + mid2.len() as int,
                data@,
            )
            &&& s@.subrange(s@.len() - 1, s@.len() as int) == "}"@
            &&& s@.len() == pre.len() + jw.len() + mid1.len() + jh.len() + mid2.len() + ja.len()
                + 1
            &&& s@[9] == 'F'
        } by {
            let pre = "{\"type\":\"Frame\",\"width\":"@;
            let mid1 = ",\"height\":"@;
            let mid2 = ",\"data\":"@;
            let jw = dec_of(width as nat);
            let jh = dec_of(height as nat);
            let ja = json_byte_arr(data@);
            lemma_dec_of_digits(width as nat);
            lemma_dec_of_digits(height as nat);
            assert(s@.subrange(0, pre.len() as int) =~= pre);
            assert(s@.subrange(pre.len() as int, pre.len() + jw.len() as int) =~= jw);
            assert(s@.subrange(pre.len() + jw.len() as int, pre.len() + jw.len() + mid1.len() as int)
                =~= mid1);
            assert(s@.subrange(
                pre.len() + jw.len() + mid1.len() as int,
                pre.len() + jw.len() + mid1.len() + jh.len() as int,
            ) =~= jh);
            assert(s@.subrange(
                pre.len() + jw.len() + mid1.len() + jh.len() as int,
                pre.len() + jw.len() + mid1.len() + jh.len() + mid2.len() as int,
            ) =~= mid2);
            assert(s@.subrange(
                pre.len() + jw.len() + mid1.len() + jh.len() + mid2.len() as int,
                pre.len() + jw.len() + mid1.len() + jh.len() + mid2.len() + ja.len() as int,
            ) =~= ja);
            assert(s@.subrange(s@.len() - 1, s@.len() as int) =~= "}"@);
            assert(s@[pre.len() + jw.len() as int] == ',');
            assert(s@[pre.len() + jw.len() + mid1.len() + jh.len() as int] == ',');
            assert(!is_digit(','));
        }
        if s@ == json_of_server(ServerMessage::Pong) {
            assert(s@.subrange(0, "{\"type\":\"Pong\"}"@.len() as int) =~= "{\"type\":\"Pong\"}"@);
        }
        assert forall|success: bool, message: String|
            plain(message@) && s@ == #[trigger] json_of_server(
                ServerMessage::ModeSet { success, message },
            ) implies {
            let pre = "{\"type\":\"ModeSet\",\"success\":"@;
            let mid = ",\"message\":"@;
            let jb = json_bool(success);
            let jm = json_str(message@);
            &&& s@.subrange(0, pre.len() as int) == pre
            &&& s@.subrange(pre.len() as int, pre.len() + jb.len() as int) == jb
            &&& s@.subrange(pre.len() + jb.len() as int, pre.len() + jb.len() + mid.len() as int)
                == mid
            &&& string_at(s@, pre.len() + jb.len() + mid.len() as int, message@)
            &&& s@.subrange(s@.len() - 1, s@.len() as int) == "}"@
            &&& s@.len() == pre.len() + jb.len() + mid.len() + jm.len() + 1
            &&& s@[9] == 'M'
        } by {
            let pre = "{\"type\":\"ModeSet\",\"success\":"@;
            let mid = ",\"message\":"@;
            let jb = json_bool(success);
            let jm = json_str(message@);
            assert(s@.subrange(0, pre.len() as int) =~= pre);
            assert(s@.subrange(pre.len() as int, pre.len() + jb.len() as int) =~= jb);
            assert(s@.subrange(pre.len() + jb.len() as int, pre.len() + jb.len() + mid.len() as int)
                =~= mid);
            assert(s@.subrange(
                pre.len() + jb.len() + mid.len() as int,
                pre.len() + jb.len() + mid.len() + jm.len() as int,
            ) =~= jm);
            assert(s@.subrange(s@.len() - 1, s@.len() as int) =~= "}"@);
        }
        assert forall|message: String|
            plain(message@) && s@ == #[trigger] json_of_server(
                ServerMessage::Error { message },
            ) implies {
            let pre = "{\"type\":\"Error\",\"message\":"@;
            let jm = json_str(message@);
            &&& s@.subrange(0, pre.len() as int) == pre
            &&& string_at(s@, pre.len() as int, message@)
            &&& s@.subrange(s@.len() - 1, s@.len() as int) == "}"@
            &&& s@.len() == pre.len() + jm.len() + 1
            &&& s@[9] == 'E'
        } by {
            let pre = "{\"type\":\"Error\",\"message\":"@;
            let jm = json_str(message@);
            assert(s@.subrange(0, pre.len() as int) =~= pre);
            assert(s@.subrange(pre.len() as int, pre.len() + jm.len() as int) =~= jm);
            assert(s@.subrange(s@.len() - 1, s@.len() as int) =~= "}"@);
        }
    }
    if let Some(j) = parse_lit(s, 0, "{\"type\":\"Pong\"}") {
        if j == s.len() {
            return Some(ServerMessage::Pong);
        } else {
            return None;
        }
    }
    if let Some(j1) = parse_lit(s, 0, "{\"type\":\"Frame\",\"width\":") {
        let (width, j3) = match parse_bounded_raw(s, j1, 4294967295) {
            Some(p) => p,
            None => {
                return None;
            },
        };
        let j4 = match parse_lit(s, j3, ",\"height\":") {
            Some(j) => j,
            None => {
                return None;
            },
        };
        let (height, j5) = match parse_bounded_raw(s, j4, 4294967295) {
            Some(p) => p,
            None => {
                return None;
            },
        };
        let j6 = match parse_lit(s, j5, ",\"data\":") {
            Some(j) => j,
            None => {
                return None;
            },
        };
        let (data, j7) = match parse_byte_arr_raw(s, j6) {
            Some(p) => p,
            None => {
                return None;
            },
        };
        match parse_lit(s, j7, "}") {
            Some(j) => {
                if j == s.len() {
                    return Some(
                        ServerMessage::Frame { width: width as u32, height: height as u32, data },
                    );
                } else {
                    return None;
                }
            },
            None => {
                return None;
            },
        }
    }
    if let Some(j1) = parse_lit(s, 0, "{\"type\":\"ModeSet\",\"success\":") {
        let (success, j3) = match parse_bool_raw(s, j1) {
            Some(p) => p,
            None => {
                return None;
            },
        };
        let j4 = match parse_lit(s, j3, ",\"message\":") {
            Some(j) => j,
            None => {
                return None;
            },
        };
        let (message, j5) = match parse_string_owned(s, j4) {
            Some(p) => p,
            None => {
                return None;
            },
        };
        match parse_lit(s, j5, "}") {
            Some(j) => {
                if j == s.len() {
                    return Some(ServerMessage::ModeSet { success, message });
                } else {
                    return None;
                }
            },
            None => {
                return None;
            },
        }
    }
    if let Some(j1) = parse_lit(s, 0, "{\"type\":\"Error\",\"message\":") {
        let (message, j3) = match parse_string_owned(s, j1) {
            Some(p) => p,
            None => {
                return None;
            },
        };
        match parse_lit(s, j3, "}") {
            Some(j) => {
                if j == s.len() {
                    return Some(ServerMessage::Error { message });
                } else {
                    return None;
                }
            },
            None => {
                return None;
            },
        }
    }
    None
}

/// Decodes a client envelope. Whatever it returns is exact: the input is
/// the canonical encoding of the returned message, with every string field
/// plain — a text that is not such an encoding is refused. On the canonical
/// encoding of a `Ping`, `MouseMove`, `MouseClick` or `KeyPress`, decoding
/// is also guaranteed to succeed with that very message.
pub fn decode_client_message(text: &str) -> (r: Option<ClientMessage>)
    ensures
        r matches Some(m) ==> client_plain(m) && text@ == json_of_client(m),
        text@ == "{\"type\":\"Ping\"}"@ ==> r == Some(ClientMessage::Ping),
        forall|x: i32, y: i32|
            text@ == #[trigger] json_of_client(ClientMessage::MouseMove { x, y }) ==> r == Some(
                ClientMessage::MouseMove { x, y },
            ),
        forall|button: u8, pressed: bool|
            text@ == #[trigger] json_of_client(ClientMessage::MouseClick { button, pressed }) ==> r
                == Some(ClientMessage::MouseClick { button, pressed }),
        forall|key: String, pressed: bool|
            plain(key@) && text@ == #[trigger] json_of_client(
                ClientMessage::KeyPress { key, pressed },
            ) ==> (r matches Some(m) && m matches ClientMessage::KeyPress { key: k2, pressed: p2 }
                && k2@ == key@ && p2 == pressed),
{
    let chars = str_to_chars(text);
    match raw_decode_client(&chars) {
        None => None,
        Some(m) => {
            if client_plain_exec(&m) {
                let re = encode_client_chars(&m);
                if chars_eq(&chars, &re) {
                    Some(m)
                } else {
                    None
                }
            } else {
                None
            }
        },
    }
}

/// Decodes a server envelope. Whatever it returns is exact: the input is
/// the canonical encoding of the returned message, with every string field
/// plain — a text that is not such an encoding is refused. On the canonical
/// encoding of a `Pong`, `ModeSet`, `Error` or `Frame`, decoding is also
/// guaranteed to succeed with that very message.
pub fn decode_server_message(text: &str) -> (r: Option<ServerMessage>)
    ensures
        r matches Some(m) ==> server_plain(m) && text@ == json_of_server(m),
        text@ == "{\"type\":\"Pong\"}"@ ==> r == Some(ServerMessage::Pong),
        forall|success: bool, message: String|
            plain(message@) && text@ == #[trigger] json_of_server(
                ServerMessage::ModeSet { success, message },
            ) ==> (r matches Some(m) && m matches ServerMessage::ModeSet { success: s2, message: m2 }
                && s2 == success && m2@ == message@),
        forall|message: String|
            plain(message@) && text@ == #[trigger] json_of_server(ServerMessage::Error { message })
                ==> (r matches Some(m) && m matches ServerMessage::Error { message: m2 } && m2@
                == message@),
        forall|width: u32, height: u32, data: Vec<u8>|
            text@ == #[trigger] json_of_server(ServerMessage::Frame { width, height, data }) ==> (r
                matches Some(m) && m matches ServerMessage::Frame {
                width: w2,
                height: h2,
                data: d2,
            } && w2 == width && h2 == height && d2@ == data@),
{
    let chars = str_to_chars(text);
    match raw_decode_server(&chars) {
        None => None,
        Some(m) => {
            if server_plain_exec(&m) {
                let re = encode_server_chars(&m);
                if chars_eq(&chars, &re) {
                    Some(m)
                } else {
                    None
                }
            } else {
                None
            }
        },
    }
}

} // verus!
