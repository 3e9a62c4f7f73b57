//! The memo that tags a token transfer, and its text on the wire.
//!
//! The wire text is a JSON object with four string fields in a fixed order:
//! `{"p":"brc-20","op":"transfer","tick":"<ticker>","amt":"<amount>"}`.
//! Indexers read the keys and their order, so neither may change.

use vstd::pervasive::unreached;
use vstd::prelude::*;
use vstd::string::StringExecFns;

use crate::json::{is_plain, is_plain_char, json_quote, json_string_text, quoted};

verus! {

/// The four fields of a memo.
#[derive(Clone, Debug, PartialEq, Eq)]
pub struct Memo {
    pub p: String,
    pub op: String,
    pub tick: String,
    pub amt: String,
}

/// A `Memo` as a mathematical value.
pub ghost struct MemoView {
    pub p: Seq<char>,
    pub op: Seq<char>,
    pub tick: Seq<char>,
    pub amt: Seq<char>,
}

impl MemoView {
    /// Whether all four fields are made of plain characters.
    pub open spec fn is_plain(self) -> bool {
        is_plain(self.p) && is_plain(self.op) && is_plain(self.tick) && is_plain(self.amt)
    }
}

impl View for Memo {
    type V = MemoView;

    open spec fn view(&self) -> MemoView {
        MemoView { p: self.p@, op: self.op@, tick: self.tick@, amt: self.amt@ }
    }
}

/// The JSON object with the keys `p`, `op`, `tick` and `amt`, in this order,
/// around four values that are already JSON text.
pub open spec fn framed(p: Seq<char>, op: Seq<char>, tick: Seq<char>, amt: Seq<char>) -> Seq<
    char,
> {
    "{\"p\":"@ + p + ",\"op\":"@ + op + ",\"tick\":"@ + tick + ",\"amt\":"@ + amt + "}"@
}

/// The wire text of a memo whose fields need no escaping.
pub open spec fn wire_text(memo: MemoView) -> Seq<char> {
    framed(quoted(memo.p), quoted(memo.op), quoted(memo.tick), quoted(memo.amt))
}

/// The memo of a transfer of `amount` of the token `ticker`.
pub open spec fn transfer_memo(ticker: Seq<char>, amount: Seq<char>) -> MemoView {
    MemoView { p: "brc-20"@, op: "transfer"@, tick: ticker, amt: amount }
}

/// The text that `Memo::encode` gives for `memo`.
pub open spec fn encoded(memo: MemoView) -> Seq<char> {
    framed(
        json_string_text(memo.p),
        json_string_text(memo.op),
        json_string_text(memo.tick),
        json_string_text(memo.amt),
    )
}

/// The memo of a transfer is plain where its ticker and amount are.
pub proof fn lemma_transfer_memo_plain(ticker: Seq<char>, amount: Seq<char>)
    requires
        is_plain(ticker),
        is_plain(amount),
    ensures
        transfer_memo(ticker, amount).is_plain(),
{
    reveal_strlit("brc-20");
    reveal_strlit("transfer");
}

/// Puts four JSON values into the memo's object.
pub fn frame(p: &str, op: &str, tick: &str, amt: &str) -> (text: String)
    ensures
        text@ == framed(p@, op@, tick@, amt@),
{
    let mut text = String::from_str("{\"p\":");
    text.append(p);
    text.append(",\"op\":");
    text.append(op);
    text.append(",\"tick\":");
    text.append(tick);
    text.append(",\"amt\":");
    text.append(amt);
    text.append("}");
    text
}

/// The JSON string literal for `s`.
fn quote(s: &str) -> (text: String)
    ensures
        text@ == json_string_text(s@),
        is_plain(s@) ==> text@ == quoted(s@),
{
    match json_quote(s) {
        Ok(text) => text,
        Err(_) => unreached(),
    }
}

impl Memo {
    /// A memo with the given fields.
    pub fn new(p: String, op: String, tick: String, amt: String) -> (memo: Memo)
        ensures
            memo@ == (MemoView { p: p@, op: op@, tick: tick@, amt: amt@ }),
    {
        Self { p, op, tick, amt }
    }

    /// The memo of a token transfer: protocol `brc-20`, operation `transfer`.
    pub fn transfer(ticker: &str, amount: &str) -> (memo: Memo)
        ensures
            memo@ == transfer_memo(ticker@, amount@),
    {
        Memo::new(
            String::from_str("brc-20"),
            String::from_str("transfer"),
            String::from_str(ticker),
            String::from_str(amount),
        )
    }

    /// The memo's text on the wire: the four fields as JSON strings, under
    /// their keys. Where the fields are plain, the text is canonical, and
    /// decoding it gives the memo back.
    pub fn encode(&self) -> (text: String)
        ensures
            text@ == encoded(self@),
            self@.is_plain() ==> text@ == wire_text(self@),
            self@.is_plain() ==> decoded(text@) == Some(self@),
    {
        proof {
            if self@.is_plain() {
                decoding_inverts_encoding(self@);
            }
        }
        let p = quote(self.p.as_str());
        let op = quote(self.op.as_str());
        let tick = quote(self.tick.as_str());
        let amt = quote(self.amt.as_str());
        frame(p.as_str(), op.as_str(), tick.as_str(), amt.as_str())
    }
}

/// The memo that `text` is the wire text of: the one memo of plain fields
/// whose wire text is `text`, if there is one.
pub open spec fn decoded(text: Seq<char>) -> Option<MemoView> {
    if exists|memo: MemoView| is_wire_text_of(text, memo) {
        Some(choose|memo: MemoView| is_wire_text_of(text, memo))
    } else {
        None
    }
}

/// Whether `text` is the wire text of `memo`, a memo of plain fields.
pub open spec fn is_wire_text_of(text: Seq<char>, memo: MemoView) -> bool {
    memo.is_plain() && wire_text(memo) == text
}

/// What decoding returns, as a mathematical value.
pub open spec fn memo_view(memo: Option<Memo>) -> Option<MemoView> {
    match memo {
        Some(memo) => Some(memo@),
        None => None,
    }
}

/// Where the fields lie in the wire text of a memo of plain fields: each
/// field starts a fixed distance behind the end of the one before, holds no
/// double quote, and is followed by one.
pub proof fn lemma_wire_shape(memo: MemoView)
    requires
        memo.is_plain(),
    ensures
        ({
            let text = wire_text(memo);
            let p_from: int = 6;
            let p_to = p_from + memo.p.len();
            let op_from = p_to + 8;
            let op_to = op_from + memo.op.len();
            let tick_from = op_to + 10;
            let tick_to = tick_from + memo.tick.len();
            let amt_from = tick_to + 9;
            let amt_to = amt_from + memo.amt.len();
            &&& text.len() == amt_to + 2
            &&& text.subrange(p_from, p_to) == memo.p
            &&& text.subrange(op_from, op_to) == memo.op
            &&& text.subrange(tick_from, tick_to) == memo.tick
            &&& text.subrange(amt_from, amt_to) == memo.amt
            &&& text[p_to] == '"'
            &&& text[op_to] == '"'
            &&& text[tick_to] == '"'
            &&& text[amt_to] == '"'
            &&& forall|i: int| p_from <= i < p_to ==> #[trigger] text[i] != '"'
            &&& forall|i: int| op_from <= i < op_to ==> #[trigger] text[i] != '"'
            &&& forall|i: int| tick_from <= i < tick_to ==> #[trigger] text[i] != '"'
            &&& forall|i: int| amt_from <= i < amt_to ==> #[trigger] text[i] != '"'
            &&& forall|i: int| 0 <= i < text.len() ==> ' ' <= #[trigger] text[i] && text[i] <= '~'
        }),
{
    reveal_strlit("{\"p\":");
    reveal_strlit(",\"op\":");
    reveal_strlit(",\"tick\":");
    reveal_strlit(",\"amt\":");
    reveal_strlit("}");
    let text = wire_text(memo);
    let p_from: int = 6;
    let p_to = p_from + memo.p.len();
    let op_from = p_to + 8;
    let op_to = op_from + memo.op.len();
    let tick_from = op_to + 10;
    let tick_to = tick_from + memo.tick.len();
    let amt_from = tick_to + 9;
    let amt_to = amt_from + memo.amt.len();
    assert(text.subrange(p_from, p_to) =~= memo.p);
    assert(text.subrange(op_from, op_to) =~= memo.op);
    assert(text.subrange(tick_from, tick_to) =~= memo.tick);
    assert(text.subrange(amt_from, amt_to) =~= memo.amt);
}

/// Two memos of plain fields with the same wire text are the same memo.
pub proof fn lemma_wire_injective(a: MemoView, b: MemoView)
    requires
        a.is_plain(),
        b.is_plain(),
        wire_text(a) == wire_text(b),
    ensures
        a == b,
{
    lemma_wire_shape(a);
    lemma_wire_shape(b);
    let text = wire_text(a);
    assert(a.p.len() == b.p.len()) by {
        if a.p.len() < b.p.len() {
            assert(text[6 + a.p.len() as int] == '"');
        } else if b.p.len() < a.p.len() {
            assert(text[6 + b.p.len() as int] == '"');
        }
    }
    let op_from: int = 6 + a.p.len() as int + 8;
    assert(a.op.len() == b.op.len()) by {
        if a.op.len() < b.op.len() {
            assert(text[op_from + a.op.len() as int] == '"');
        } else if b.op.len() < a.op.len() {
            assert(text[op_from + b.op.len() as int] == '"');
        }
    }
    let tick_from: int = op_from + a.op.len() as int + 10;
    assert(a.tick.len() == b.tick.len()) by {
        if a.tick.len() < b.tick.len() {
            assert(text[tick_from + a.tick.len() as int] == '"');
        } else if b.tick.len() < a.tick.len() {
            assert(text[tick_from + b.tick.len() as int] == '"');
        }
    }
}

/// Decoding undoes encoding: the wire text of a memo of plain fields decodes
/// to that memo, field for field.
pub proof fn decoding_inverts_encoding(memo: MemoView)
    requires
        memo.is_plain(),
    ensures
        decoded(wire_text(memo)) == Some(memo),
{
    let text = wire_text(memo);
    assert(is_wire_text_of(text, memo));
    let found = choose|found: MemoView| is_wire_text_of(text, found);
    lemma_wire_injective(found, memo);
}

/// Whether `b` is the code of a plain character.
pub open spec fn is_plain_byte(b: u8) -> bool {
    0x20 <= b <= 0x7e && b != 0x22 && b != 0x5c
}

/// The place of the first double quote at or behind `from`, or the length
/// of `bytes` where there is none.
fn find_quote(bytes: &[u8], from: usize) -> (at: usize)
    requires
        from <= bytes@.len(),
    ensures
        from <= at <= bytes@.len(),
        forall|i: int| from <= i < at ==> #[trigger] bytes@[i] != 0x22,
        at < bytes@.len() ==> bytes@[at as int] == 0x22,
{
    let mut at: usize = from;
    while at < bytes.len() && bytes[at] != 0x22
        invariant
            from <= at <= bytes@.len(),
            forall|i: int| from <= i < at ==> #[trigger] bytes@[i] != 0x22,
        decreases bytes@.len() - at,
    {
        at += 1;
    }
    at
}

/// Whether the bytes from `from` up to `to` are all codes of plain characters.
fn all_plain(bytes: &[u8], from: usize, to: usize) -> (plain: bool)
    requires
        from <= to <= bytes@.len(),
    ensures
        plain == forall|i: int| from <= i < to ==> is_plain_byte(#[trigger] bytes@[i]),
{
    let mut at: usize = from;
    while at < to
        invariant
            from <= at <= to <= bytes@.len(),
            forall|i: int| from <= i < at ==> is_plain_byte(#[trigger] bytes@[i]),
        decreases to - at,
    {
        let b = bytes[at];
        if b < 0x20 || b > 0x7e || b == 0x22 || b == 0x5c {
            return false;
        }
        at += 1;
    }
    true
}

/// A stretch of text is plain exactly where its bytes are codes of plain
/// characters.
proof fn lemma_plain_range(text: Seq<char>, bytes: Seq<u8>, from: int, to: int)
    requires
        0 <= from <= to <= text.len(),
        bytes.len() == text.len(),
        forall|i: int|
            0 <= i < text.len() ==> (is_plain_byte(#[trigger] bytes[i]) <==> is_plain_char(
                text[i],
            )),
    ensures
        (forall|i: int| from <= i < to ==> is_plain_byte(#[trigger] bytes[i])) <==> is_plain(
            text.subrange(from, to),
        ),
{
    let part = text.subrange(from, to);
    if forall|i: int| from <= i < to ==> is_plain_byte(#[trigger] bytes[i]) {
        assert forall|j: int| 0 <= j < part.len() implies is_plain_char(#[trigger] part[j]) by {
            assert(is_plain_byte(bytes[from + j]));
        }
    }
    if is_plain(part) {
        assert forall|i: int| from <= i < to implies is_plain_byte(#[trigger] bytes[i]) by {
            assert(is_plain_char(part[i - from]));
        }
    }
}

/// `s` between two double quotes.
fn quote_plain(s: &str) -> (text: String)
    ensures
        text@ == quoted(s@),
{
    proof {
        reveal_strlit("\"");
    }
    let mut text = String::from_str("\"");
    text.append(s);
    text.append("\"");
    assert(text@ =~= quoted(s@));
    text
}

impl Memo {
    /// Reads a memo back from its wire text.
    ///
    /// The wire text is recognised in its canonical form only: the four keys
    /// in order, no blank between the tokens, and fields of plain characters.
    /// Any other text yields `None`.
    pub fn decode(text: &str) -> (memo: Option<Memo>)
        ensures
            memo_view(memo) == decoded(text@),
    {
        if !text.is_ascii() {
            proof {
                assert forall|m: MemoView| !is_wire_text_of(text@, m) by {
                    if is_wire_text_of(text@, m) {
                        lemma_wire_shape(m);
                    }
                }
            }
            return None;
        }
        let bytes = text.as_bytes();
        let n = bytes.len();
        proof {
            vstd::string::is_ascii_spec_bytes(text);
            assert(bytes@.len() == text@.len());
            assert forall|i: int| 0 <= i < n implies (#[trigger] bytes@[i] == 0x22 <==> text@[i]
                == '"') && (is_plain_byte(bytes@[i]) <==> is_plain_char(text@[i])) by {
                assert(bytes@[i] == text@[i] as u8);
                assert('\0' <= text@[i] <= '\u{7f}');
            }
        }
        if n < 35 {
            proof {
                assert forall|m: MemoView| !is_wire_text_of(text@, m) by {
                    if is_wire_text_of(text@, m) {
                        lemma_wire_shape(m);
                    }
                }
            }
            return None;
        }
        let p_from: usize = 6;
        let p_to = find_quote(bytes, p_from);
        proof {
            assert forall|m: MemoView| is_wire_text_of(text@, m) implies p_to == 6 + m.p.len() by {
                lemma_wire_shape(m);
                if p_to < 6 + m.p.len() {
                    assert(bytes@[p_to as int] == 0x22);
                } else if p_to > 6 + m.p.len() {
                    assert(bytes@[6 + m.p.len() as int] != 0x22);
                }
            }
        }
        if n - p_to < 8 {
            proof {
                assert forall|m: MemoView| !is_wire_text_of(text@, m) by {
                    if is_wire_text_of(text@, m) {
                        lemma_wire_shape(m);
                    }
                }
            }
            return None;
        }
        let op_from: usize = p_to + 8;
        let op_to = find_quote(bytes, op_from);
        proof {
            assert forall|m: MemoView| is_wire_text_of(text@, m) implies op_to == op_from
                + m.op.len() by {
                lemma_wire_shape(m);
                if op_to < op_from + m.op.len() {
                    assert(bytes@[op_to as int] == 0x22);
                } else if op_to > op_from + m.op.len() {
                    assert(bytes@[op_from + m.op.len() as int] != 0x22);
                }
            }
        }
        if n - op_to < 10 {
            proof {
                assert forall|m: MemoView| !is_wire_text_of(text@, m) by {
                    if is_wire_text_of(text@, m) {
                        lemma_wire_shape(m);
                    }
                }
            }
            return None;
        }
        let tick_from: usize = op_to + 10;
        let tick_to = find_quote(bytes, tick_from);
        proof {
            assert forall|m: MemoView| is_wire_text_of(text@, m) implies tick_to == tick_from
                + m.tick.len() by {
                lemma_wire_shape(m);
                if tick_to < tick_from + m.tick.len() {
                    assert(bytes@[tick_to as int] == 0x22);
                } else if tick_to > tick_from + m.tick.len() {
                    assert(bytes@[tick_from + m.tick.len() as int] != 0x22);
                }
            }
        }
        if n - tick_to < 9 {
            proof {
                assert forall|m: MemoView| !is_wire_text_of(text@, m) by {
                    if is_wire_text_of(text@, m) {
                        lemma_wire_shape(m);
                    }
                }
            }
            return None;
        }
        let amt_from: usize = tick_to + 9;
        let amt_to = find_quote(bytes, amt_from);
        proof {
            assert forall|m: MemoView| is_wire_text_of(text@, m) implies amt_to == amt_from
                + m.amt.len() by {
                lemma_wire_shape(m);
                if amt_to < amt_from + m.amt.len() {
                    assert(bytes@[amt_to as int] == 0x22);
                } else if amt_to > amt_from + m.amt.len() {
                    assert(bytes@[amt_from + m.amt.len() as int] != 0x22);
                }
            }
        }
        let plain_p = all_plain(bytes, p_from, p_to);
        let plain_op = all_plain(bytes, op_from, op_to);
        let plain_tick = all_plain(bytes, tick_from, tick_to);
        let plain_amt = all_plain(bytes, amt_from, amt_to);
        let plain = plain_p && plain_op && plain_tick && plain_amt;
        let found = Memo::new(
            String::from_str(text.substring_ascii(p_from, p_to)),
            String::from_str(text.substring_ascii(op_from, op_to)),
            String::from_str(text.substring_ascii(tick_from, tick_to)),
            String::from_str(text.substring_ascii(amt_from, amt_to)),
        );
        proof {
            assert forall|m: MemoView| is_wire_text_of(text@, m) implies m == found@ by {
                lemma_wire_shape(m);
            }
            lemma_plain_range(text@, bytes@, p_from as int, p_to as int);
            lemma_plain_range(text@, bytes@, op_from as int, op_to as int);
            lemma_plain_range(text@, bytes@, tick_from as int, tick_to as int);
            lemma_plain_range(text@, bytes@, amt_from as int, amt_to as int);
            assert(plain == found@.is_plain());
        }
        if !plain {
            return None;
        }
        let canonical = frame(
            quote_plain(found.p.as_str()).as_str(),
            quote_plain(found.op.as_str()).as_str(),
            quote_plain(found.tick.as_str()).as_str(),
            quote_plain(found.amt.as_str()).as_str(),
        );
        if String::from_str(text) == canonical {
            proof {
                assert(is_wire_text_of(text@, found@));
                decoding_inverts_encoding(found@);
            }
            Some(found)
        } else {
            None
        }
    }
}

/// The ticker and the amount that `text` states, where `text` is the wire
/// text of the memo of a transfer.
pub open spec fn decoded_transfer(text: Seq<char>) -> Option<(Seq<char>, Seq<char>)> {
    match decoded(text) {
        Some(memo) => if memo.p == "brc-20"@ && memo.op == "transfer"@ {
            Some((memo.tick, memo.amt))
        } else {
            None
        },
        None => None,
    }
}

/// A ticker and an amount as mathematical values, where there are any.
pub open spec fn fields_view(fields: Option<(String, String)>) -> Option<(Seq<char>, Seq<char>)> {
    match fields {
        Some((ticker, amount)) => Some((ticker@, amount@)),
        None => None,
    }
}

/// The round trip of a transfer memo: the wire text for a plain ticker and a
/// plain amount decodes to that ticker and that amount.
pub proof fn transfer_memo_round_trip(ticker: Seq<char>, amount: Seq<char>)
    requires
        is_plain(ticker),
        is_plain(amount),
    ensures
        decoded_transfer(wire_text(transfer_memo(ticker, amount))) == Some((ticker, amount)),
{
    lemma_transfer_memo_plain(ticker, amount);
    decoding_inverts_encoding(transfer_memo(ticker, amount));
}

/// The wire text of the memo for a transfer of `amount` of the token
/// `ticker`. Where both are plain, decoding the text gives them back.
pub fn encode(ticker: &str, amount: &str) -> (text: String)
    ensures
        text@ == encoded(transfer_memo(ticker@, amount@)),
        is_plain(ticker@) && is_plain(amount@) ==> {
            &&& text@ == wire_text(transfer_memo(ticker@, amount@))
            &&& decoded_transfer(text@) == Some((ticker@, amount@))
        },
{
    proof {
        if is_plain(ticker@) && is_plain(amount@) {
            transfer_memo_round_trip(ticker@, amount@);
            lemma_transfer_memo_plain(ticker@, amount@);
        }
    }
    Memo::transfer(ticker, amount).encode()
}

/// Reads the ticker and the amount back from the wire text of the memo of a
/// transfer; `None` for any other text.
pub fn decode(text: &str) -> (fields: Option<(String, String)>)
    ensures
        fields_view(fields) == decoded_transfer(text@),
{
    match Memo::decode(text) {
        Some(memo) => {
            if memo.p == String::from_str("brc-20") && memo.op == String::from_str("transfer") {
                Some((memo.tick, memo.amt))
            } else {
                None
            }
        },
        None => None,
    }
}

} // verus!
