//! The line protocol the clients speak: `START:<username>` to join,
//! `MOVE:<username>:<cellIndex>` to place a mark, anything else ignored.
//! Also the exact outbound frames the server broadcasts.

use vstd::prelude::*;

verus! {

/// `p` is an initial segment of `t`.
pub open spec fn has_prefix(t: Seq<char>, p: Seq<char>) -> bool {
    t.len() >= p.len() && t.subrange(0, p.len() as int) == p
}

/// `i` is the position of the first colon in `p`.
pub open spec fn is_first_colon(p: Seq<char>, i: int) -> bool {
    &&& 0 <= i < p.len()
    &&& p[i] == ':'
    &&& forall|j: int| 0 <= j < i ==> p[j] != ':'
}

/// `c` is a decimal digit.
pub open spec fn is_digit(c: char) -> bool {
    '0' <= c && c <= '9'
}

/// Every character of `s` is a decimal digit.
pub open spec fn all_digits(s: Seq<char>) -> bool {
    forall|i: int| 0 <= i < s.len() ==> is_digit(#[trigger] s[i])
}

/// The value of `s` read as a base-10 numeral.
pub open spec fn dec_val(s: Seq<char>) -> int
    decreases s.len(),
{
    if s.len() == 0 {
        0
    } else {
        dec_val(s.drop_last()) * 10 + (s.last() as int - '0' as int)
    }
}

/// `s` is a well-formed numeral whose value fits the machine word.
pub open spec fn parseable(s: Seq<char>) -> bool {
    s.len() > 0 && all_digits(s) && dec_val(s) <= usize::MAX as int
}

proof fn lemma_dec_val_nonneg(s: Seq<char>)
    requires
        all_digits(s),
    ensures
        dec_val(s) >= 0,
    decreases s.len(),
{
    if s.len() > 0 {
        assert(all_digits(s.drop_last()));
        lemma_dec_val_nonneg(s.drop_last());
    }
}

/// A numeral's value only grows as digits are appended.
proof fn lemma_dec_val_prefix_le(s: Seq<char>, i: int)
    requires
        all_digits(s),
        0 <= i <= s.len(),
    ensures
        dec_val(s.subrange(0, i)) <= dec_val(s),
    decreases s.len() - i,
{
    if i == s.len() {
        assert(s.subrange(0, i) =~= s);
    } else {
        let shorter = s.subrange(0, i);
        let longer = s.subrange(0, i + 1);
        assert(longer.drop_last() =~= shorter);
        assert(all_digits(shorter));
        lemma_dec_val_nonneg(shorter);
        assert(dec_val(longer) == dec_val(shorter) * 10 + (longer.last() as int - '0' as int));
        assert(dec_val(shorter) <= dec_val(longer));
        lemma_dec_val_prefix_le(s, i + 1);
    }
}

/// Parse a base-10 numeral: the result is `Some(n)` exactly when the text is
/// a nonempty digit string whose value `n` fits the machine word, and `None`
/// on an empty text, a non-digit, or a value out of range.
pub fn parse_usize(s: &str) -> (r: Option<usize>)
    ensures
        match r {
            Some(n) => parseable(s@) && n as int == dec_val(s@),
            None => !parseable(s@),
        },
{
    let len = s.unicode_len();
    if len == 0 {
        return None;
    }
    let mut i: usize = 0;
    let mut acc: usize = 0;
    while i < len
        invariant
            i <= len,
            len == s@.len(),
            all_digits(s@.subrange(0, i as int)),
            acc as int == dec_val(s@.subrange(0, i as int)),
        decreases len - i,
    {
        let c = s.get_char(i);
        let v = c as u32;
        if v < 48 || v > 57 {
            assert(!is_digit(s@[i as int]));
            return None;
        }
        let d = (v - 48) as usize;
        proof {
            assert(s@.subrange(0, i + 1 as int).drop_last() =~= s@.subrange(0, i as int));
            assert(s@.subrange(0, i + 1 as int).last() == s@[i as int]);
            assert(all_digits(s@.subrange(0, i + 1 as int)));
        }
        let step = acc.checked_mul(10);
        match step {
            Some(m) => {
                match m.checked_add(d) {
                    Some(a2) => {
                        acc = a2;
                    },
                    None => {
                        proof {
                            assert(dec_val(s@.subrange(0, i + 1 as int)) > usize::MAX as int);
                            if all_digits(s@) {
                                lemma_dec_val_prefix_le(s@, i + 1 as int);
                            }
                        }
                        return None;
                    },
                }
            },
            None => {
                proof {
                    lemma_dec_val_nonneg(s@.subrange(0, i as int));
                    assert(dec_val(s@.subrange(0, i + 1 as int)) > usize::MAX as int);
                    if all_digits(s@) {
                        lemma_dec_val_prefix_le(s@, i + 1 as int);
                    }
                }
                return None;
            },
        }
        i += 1;
    }
    proof {
        assert(s@.subrange(0, len as int) =~= s@);
    }
    Some(acc)
}

/// Whether `t` starts with `p`, character by character.
pub fn str_has_prefix(t: &str, p: &str) -> (r: bool)
    ensures
        r == has_prefix(t@, p@),
{
    let tl = t.unicode_len();
    let pl = p.unicode_len();
    if tl < pl {
        return false;
    }
    let mut i: usize = 0;
    while i < pl
        invariant
            i <= pl,
            pl == p@.len(),
            tl == t@.len(),
            pl <= tl,
            forall|j: int| 0 <= j < i ==> t@[j] == p@[j],
        decreases pl - i,
    {
        if t.get_char(i) != p.get_char(i) {
            proof {
                let ghost pv = p@.len() as int;
                assert(has_prefix(t@, p@) ==> t@.subrange(0, pv)[i as int] == p@[i as int]);
            }
            return false;
        }
        i += 1;
    }
    proof {
        assert(t@.subrange(0, p@.len() as int) =~= p@);
    }
    true
}

/// The index of the first colon in `s`, if any.
fn find_colon(s: &str) -> (r: Option<usize>)
    ensures
        match r {
            Some(i) => is_first_colon(s@, i as int),
            None => forall|j: int| 0 <= j < s@.len() ==> s@[j] != ':',
        },
{
    let len = s.unicode_len();
    let mut i: usize = 0;
    while i < len
        invariant
            i <= len,
            len == s@.len(),
            forall|j: int| 0 <= j < i ==> s@[j] != ':',
        decreases len - i,
    {
        if s.get_char(i) == ':' {
            return Some(i);
        }
        i += 1;
    }
    None
}

/// A sequence holding a colon holds a first colon.
pub proof fn lemma_exists_first_colon(p: Seq<char>, j: int)
    requires
        0 <= j < p.len(),
        p[j] == ':',
    ensures
        exists|i: int| is_first_colon(p, i),
    decreases j,
{
    if forall|k: int| 0 <= k < j ==> p[k] != ':' {
        assert(is_first_colon(p, j));
    } else {
        let k = choose|k: int| 0 <= k < j && p[k] == ':';
        lemma_exists_first_colon(p, k);
    }
}

/// The first colon's position is unique.
pub proof fn lemma_first_colon_unique(p: Seq<char>, i: int, j: int)
    requires
        is_first_colon(p, i),
        is_first_colon(p, j),
    ensures
        i == j,
{
}

/// Why an inbound frame ends its connection. Game-logic errors never land
/// here: they are broadcast as text and the connection lives on.
#[derive(Clone, Copy, Debug, PartialEq, Eq, Structural)]
pub enum ProtocolError {
    /// The MOVE payload had no colon between username and cell, or its cell
    /// text is not a numeral the machine can hold.
    MalformedMove,
    /// The cell index parsed but lies outside the nine-cell board, where a
    /// placement would fall off the board.
    CellOutOfRange,
}

/// An inbound frame, as the dispatch reads it.
pub enum InboundMessage {
    /// `START:<username>` — a join request.
    Start { username: String },
    /// `MOVE:<username>:<cell text>` — a move attempt; the cell text is not
    /// yet parsed as a number.
    Move { username: String, cell_text: String },
    /// A `MOVE:` frame without the colon that separates username and cell;
    /// fatal to the sending connection.
    MalformedMove,
    /// Anything else; ignored.
    Other,
}

/// Read one inbound frame: `START:` takes the rest as the username; `MOVE:`
/// splits the rest at its first colon into username and cell text; any other
/// frame is ignored.
pub fn parse_message(text: &str) -> (m: InboundMessage)
    ensures
        has_prefix(text@, "START:"@) ==> (m matches InboundMessage::Start { username }
            && username@ == text@.subrange("START:"@.len() as int, text@.len() as int)),
        !has_prefix(text@, "START:"@) && has_prefix(text@, "MOVE:"@) ==> {
            let p = text@.subrange("MOVE:"@.len() as int, text@.len() as int);
            &&& ((forall|j: int| 0 <= j < p.len() ==> p[j] != ':') ==> m
                == InboundMessage::MalformedMove)
            &&& forall|i: int|
                is_first_colon(p, i) ==> (m matches InboundMessage::Move { username, cell_text }
                    && username@ == p.subrange(0, i) && cell_text@ == p.subrange(
                    i + 1,
                    p.len() as int,
                ))
        },
        !has_prefix(text@, "START:"@) && !has_prefix(text@, "MOVE:"@) ==> m
            == InboundMessage::Other,
{
    let tlen = text.unicode_len();
    if str_has_prefix(text, "START:") {
        proof {
            reveal_strlit("START:");
        }
        let user = text.substring_char(6, tlen);
        InboundMessage::Start { username: String::from_str(user) }
    } else if str_has_prefix(text, "MOVE:") {
        proof {
            reveal_strlit("MOVE:");
        }
        let payload = text.substring_char(5, tlen);
        let plen = payload.unicode_len();
        match find_colon(payload) {
            Some(i) => {
                let username = String::from_str(payload.substring_char(0, i));
                let cell_text = String::from_str(payload.substring_char(i + 1, plen));
                proof {
                    assert forall|k: int| is_first_colon(payload@, k) implies k == i as int by {
                        lemma_first_colon_unique(payload@, k, i as int);
                    }
                }
                InboundMessage::Move { username, cell_text }
            },
            None => InboundMessage::MalformedMove,
        }
    } else {
        InboundMessage::Other
    }
}

/// The frame announcing a winner: `The winner is <name>`.
pub fn winner_frame(name: &String) -> (r: String)
    ensures
        r@ == "The winner is "@ + name@,
{
    let mut s = String::from_str("The winner is ");
    s.append(name.as_str());
    s
}

/// The frame echoing a move and the rendered board:
/// `<username> : <cell text> : ` then a newline and the board.
pub fn move_frame(username: &String, cell_text: &String, board: &String) -> (r: String)
    ensures
        r@ == username@ + " : "@ + cell_text@ + " : \n"@ + board@,
{
    let mut s = username.clone();
    s.append(" : ");
    s.append(cell_text.as_str());
    s.append(" : \n");
    s.append(board.as_str());
    s
}

} // verus!
