//! Reading BlueZ's output: which listed devices are Balance Boards, and
//! whether a device is paired.
use vstd::prelude::*;
use crate::text::push_char;

verus! {

/// Unicode white space, as `char::is_whitespace` defines it (the
/// `White_Space` property).
pub open spec fn is_white_space(c: char) -> bool {
    let u = c as u32;
    (0x09 <= u <= 0x0D) || u == 0x20 || u == 0x85 || u == 0xA0 || u == 0x1680
        || (0x2000 <= u <= 0x200A) || u == 0x2028 || u == 0x2029 || u == 0x202F
        || u == 0x205F || u == 0x3000
}

/// Whether `c` is white space.
pub fn is_whitespace(c: char) -> (res: bool)
    ensures
        res == is_white_space(c),
{
    let u = c as u32;
    (0x09 <= u && u <= 0x0D) || u == 0x20 || u == 0x85 || u == 0xA0 || u == 0x1680
        || (0x2000 <= u && u <= 0x200A) || u == 0x2028 || u == 0x2029 || u == 0x202F
        || u == 0x205F || u == 0x3000
}

/// An ASCII hex digit.
pub open spec fn is_hex_char(c: char) -> bool {
    ('0' <= c <= '9') || ('a' <= c <= 'f') || ('A' <= c <= 'F')
}

/// Splitting text, scanning left to right: the finished pieces and the piece
/// still being read. With `newline`, pieces end at each `'\n'` and may be
/// empty (lines); otherwise they end at white space and are never empty
/// (words).
pub open spec fn split_state(s: Seq<char>, newline: bool) -> (Seq<Seq<char>>, Seq<char>)
    decreases s.len(),
{
    if s.len() == 0 {
        (seq![], seq![])
    } else {
        let (done, cur) = split_state(s.drop_last(), newline);
        let c = s.last();
        if newline {
            if c == '\n' {
                (done.push(cur), seq![])
            } else {
                (done, cur.push(c))
            }
        } else if is_white_space(c) {
            if cur.len() > 0 {
                (done.push(cur), seq![])
            } else {
                (done, seq![])
            }
        } else {
            (done, cur.push(c))
        }
    }
}

/// Ends a split: the unfinished piece counts when it is not empty.
pub open spec fn finish(st: (Seq<Seq<char>>, Seq<char>)) -> Seq<Seq<char>> {
    if st.1.len() > 0 {
        st.0.push(st.1)
    } else {
        st.0
    }
}

/// The lines of a text, split at `'\n'`; a final line break ends the last
/// line rather than starting an empty one.
pub open spec fn lines(s: Seq<char>) -> Seq<Seq<char>> {
    finish(split_state(s, true))
}

/// The white-space separated words of a line.
pub open spec fn words(s: Seq<char>) -> Seq<Seq<char>> {
    finish(split_state(s, false))
}

/// A Bluetooth address as BlueZ prints it: six groups of two ASCII hex
/// digits separated by colons.
pub open spec fn is_bd_address(a: Seq<char>) -> bool {
    a.len() == 17 && forall|i: int|
        0 <= i < 17 ==> if i % 3 == 2 {
            #[trigger] a[i] == ':'
        } else {
            is_hex_char(a[i])
        }
}

/// The address a device-list line names, when the line is exactly
/// `Device <address> Nintendo RVL-WBC-01` (words separated by any white space).
pub open spec fn board_of_line(line: Seq<char>) -> Option<Seq<char>> {
    board_of_line_words(words(line))
}

/// The board addresses named by a sequence of lines, in order.
pub open spec fn boards_of(lines: Seq<Seq<char>>) -> Seq<Seq<char>>
    decreases lines.len(),
{
    if lines.len() == 0 {
        seq![]
    } else {
        let rest = boards_of(lines.drop_last());
        match board_of_line(lines.last()) {
            Some(a) => rest.push(a),
            None => rest,
        }
    }
}

/// The addresses of the Balance Boards in BlueZ's `devices` listing.
pub open spec fn spec_parse_boards(text: Seq<char>) -> Seq<Seq<char>> {
    boards_of(lines(text))
}

/// `a` holds exactly the characters of `b`.
fn chars_equal(a: &Vec<char>, b: &[char]) -> (res: bool)
    ensures
        res == (a@ == b@),
{
    if a.len() != b.len() {
        return false;
    }
    let mut i: usize = 0;
    while i < a.len()
        invariant
            a@.len() == b@.len(),
            i <= a@.len(),
            forall|k: int| 0 <= k < i ==> a@[k] == b@[k],
        decreases a@.len() - i,
    {
        if a[i] != b[i] {
            return false;
        }
        i = i + 1;
    }
    assert(a@ =~= b@);
    true
}

/// Whether `c` is an ASCII hex digit.
fn is_hex(c: char) -> (res: bool)
    ensures
        res == is_hex_char(c),
{
    ('0' <= c && c <= '9') || ('a' <= c && c <= 'f') || ('A' <= c && c <= 'F')
}

/// Whether the word is a colon-separated Bluetooth address.
fn is_address(a: &Vec<char>) -> (res: bool)
    ensures
        res == is_bd_address(a@),
{
    if a.len() != 17 {
        return false;
    }
    let mut i: usize = 0;
    while i < 17
        invariant
            a@.len() == 17,
            i <= 17,
            forall|k: int| 0 <= k < i ==> if k % 3 == 2 {
                #[trigger] a@[k] == ':'
            } else {
                is_hex_char(a@[k])
            },
        decreases 17 - i,
    {
        if i % 3 == 2 {
            if a[i] != ':' {
                return false;
            }
        } else if !is_hex(a[i]) {
            return false;
        }
        i = i + 1;
    }
    true
}

/// The address in a line's words, when they name a Balance Board.
fn board_of_words(w: &Vec<Vec<char>>) -> (res: Option<String>)
    ensures
        match board_of_line_words(w@.map_values(|v: Vec<char>| v@)) {
            Some(a) => res is Some && res->0@ == a,
            None => res is None,
        },
{
    let ghost ws = w@.map_values(|v: Vec<char>| v@);
    if w.len() != 4 {
        return None;
    }
    let device: [char; 6] = ['D', 'e', 'v', 'i', 'c', 'e'];
    let nintendo: [char; 8] = ['N', 'i', 'n', 't', 'e', 'n', 'd', 'o'];
    let model: [char; 10] = ['R', 'V', 'L', '-', 'W', 'B', 'C', '-', '0', '1'];
    assert(device@ =~= seq!['D', 'e', 'v', 'i', 'c', 'e']);
    assert(nintendo@ =~= seq!['N', 'i', 'n', 't', 'e', 'n', 'd', 'o']);
    assert(model@ =~= seq!['R', 'V', 'L', '-', 'W', 'B', 'C', '-', '0', '1']);
    if !chars_equal(&w[0], device.as_slice()) || !is_address(&w[1])
        || !chars_equal(&w[2], nintendo.as_slice()) || !chars_equal(&w[3], model.as_slice()) {
        return None;
    }
    let mut s = String::new();
    let addr = &w[1];
    let mut i: usize = 0;
    while i < addr.len()
        invariant
            i <= addr@.len(),
            s@ == addr@.take(i as int),
        decreases addr@.len() - i,
    {
        push_char(&mut s, addr[i]);
        proof {
            assert(addr@.take(i + 1) =~= addr@.take(i as int).push(addr@[i as int]));
        }
        i = i + 1;
    }
    assert(addr@.take(addr@.len() as int) =~= addr@);
    Some(s)
}

/// The board address that a line's words name.
pub open spec fn board_of_line_words(w: Seq<Seq<char>>) -> Option<Seq<char>> {
    if w.len() == 4 && w[0] == seq!['D', 'e', 'v', 'i', 'c', 'e'] && is_bd_address(w[1])
        && w[2] == seq!['N', 'i', 'n', 't', 'e', 'n', 'd', 'o']
        && w[3] == seq!['R', 'V', 'L', '-', 'W', 'B', 'C', '-', '0', '1'] {
        Some(w[1])
    } else {
        None
    }
}


/// Finishes the word being read, if any.
fn end_word(words: &mut Vec<Vec<char>>, cur: &mut Vec<char>)
    ensures
        final(words)@.map_values(|v: Vec<char>| v@) == finish(
            (old(words)@.map_values(|v: Vec<char>| v@), old(cur)@),
        ),
        final(cur)@ == Seq::<char>::empty(),
{
    let ghost w0 = old(words)@.map_values(|v: Vec<char>| v@);
    if cur.len() > 0 {
        let mut word: Vec<char> = Vec::new();
        std::mem::swap(&mut word, cur);
        words.push(word);
        assert(words@.map_values(|v: Vec<char>| v@) =~= w0.push(old(cur)@));
    } else {
        assert(cur@ =~= Seq::<char>::empty());
    }
}

/// The addresses of the Balance Boards in the output of `bluetoothctl
/// devices`: lines of exactly `Device <address> Nintendo RVL-WBC-01`, where
/// the address is six colon-separated pairs of hex digits. Other devices,
/// malformed addresses and prefixed lines such as `[NEW] Device ...` are
/// skipped.
pub fn parse_boards(text: &str) -> (res: Vec<String>)
    ensures
        res@.map_values(|s: String| s@) == spec_parse_boards(text@),
{
    let mut boards: Vec<String> = Vec::new();
    let mut line_words: Vec<Vec<char>> = Vec::new();
    let mut cur: Vec<char> = Vec::new();
    let ghost mut seen: Seq<char> = Seq::empty();
    for c in it: text.chars()
        invariant
            it.seq() == text@,
            seen == text@.take(it.index() as int),
            boards@.map_values(|s: String| s@) == boards_of(split_state(seen, true).0),
            (line_words@.map_values(|v: Vec<char>| v@), cur@) == split_state(split_state(seen, true).1, false),
    {
        let ghost line = split_state(seen, true).1;
        let ghost lines_before = split_state(seen, true).0;
        let ghost new_seen = seen.push(c);
        proof {
            assert(new_seen.drop_last() =~= seen);
            assert(new_seen.last() == c);
        }
        if c == '\n' {
            end_word(&mut line_words, &mut cur);
            proof {
                assert(line_words@.map_values(|v: Vec<char>| v@) == words(line));
                assert(split_state(new_seen, true) == (lines_before.push(line), Seq::<char>::empty()));
                assert(lines_before.push(line).drop_last() =~= lines_before);
                assert(lines_before.push(line).last() == line);
            }
            let found = board_of_words(&line_words);
            match found {
                Some(addr) => {
                    boards.push(addr);
                },
                None => {},
            }
            proof {
                assert(boards@.map_values(|s: String| s@) =~= boards_of(lines_before.push(line)));
            }
            line_words = Vec::new();
            proof {
                assert(line_words@.map_values(|v: Vec<char>| v@) =~= Seq::<Seq<char>>::empty());
                assert(split_state(Seq::<char>::empty(), false) == (Seq::<Seq<char>>::empty(), Seq::<char>::empty()));
            }
        } else if is_whitespace(c) {
            end_word(&mut line_words, &mut cur);
            proof {
                assert(split_state(new_seen, true) == (lines_before, line.push(c)));
                assert(line.push(c).drop_last() =~= line);
                assert(line.push(c).last() == c);
            }
        } else {
            cur.push(c);
            proof {
                assert(split_state(new_seen, true) == (lines_before, line.push(c)));
                assert(line.push(c).drop_last() =~= line);
                assert(line.push(c).last() == c);
            }
        }
        proof {
            seen = new_seen;
            assert(seen =~= text@.take(it.index() + 1));
        }
    }
    let ghost line = split_state(seen, true).1;
    let ghost lines_before = split_state(seen, true).0;
    proof {
        assert(seen =~= text@);
    }
    end_word(&mut line_words, &mut cur);
    let found = board_of_words(&line_words);
    match found {
        Some(addr) => {
            boards.push(addr);
        },
        None => {},
    }
    proof {
        assert(lines_before.push(line).drop_last() =~= lines_before);
        if line.len() == 0 {
            assert(words(line) =~= Seq::<Seq<char>>::empty()) by {
                assert(split_state(line, false) == (Seq::<Seq<char>>::empty(), Seq::<char>::empty()));
            }
            assert(lines(text@) == lines_before);
        } else {
            assert(lines(text@) == lines_before.push(line));
        }
        assert(boards@.map_values(|s: String| s@) =~= spec_parse_boards(text@));
    }
    boards
}

/// `s` without leading and trailing white space.
pub open spec fn trim(s: Seq<char>) -> Seq<char>
    decreases s.len(),
{
    if s.len() == 0 {
        s
    } else if is_white_space(s[0]) {
        trim(s.drop_first())
    } else if is_white_space(s.last()) {
        trim(s.drop_last())
    } else {
        s
    }
}

/// The line BlueZ prints for a paired device.
pub open spec fn paired_line() -> Seq<char> {
    seq!['P', 'a', 'i', 'r', 'e', 'd', ':', ' ', 'y', 'e', 's']
}

/// The text of `bluetoothctl info` says the device is paired: one of its
/// lines, trimmed, reads `Paired: yes`.
pub open spec fn spec_reports_paired(info: Seq<char>) -> bool {
    exists|i: int| 0 <= i < lines(info).len() && trim(#[trigger] lines(info)[i]) == paired_line()
}

/// `s` trimmed of white space at both ends.
fn trim_chars(s: &Vec<char>) -> (res: Vec<char>)
    ensures
        res@ == trim(s@),
{
    let mut lo: usize = 0;
    let mut hi: usize = s.len();
    assert(s@.subrange(0, s@.len() as int) =~= s@);
    while lo < hi && is_whitespace(s[lo])
        invariant
            lo <= hi <= s@.len(),
            hi == s@.len(),
            trim(s@) == trim(s@.subrange(lo as int, hi as int)),
        decreases hi - lo,
    {
        proof {
            let t = s@.subrange(lo as int, hi as int);
            assert(t.drop_first() =~= s@.subrange(lo + 1, hi as int));
        }
        lo = lo + 1;
    }
    while lo < hi && is_whitespace(s[hi - 1])
        invariant
            lo <= hi <= s@.len(),
            trim(s@) == trim(s@.subrange(lo as int, hi as int)),
            lo < hi ==> !is_white_space(s@[lo as int]),
        decreases hi - lo,
    {
        proof {
            let t = s@.subrange(lo as int, hi as int);
            assert(t.drop_last() =~= s@.subrange(lo as int, hi - 1));
            if lo + 1 < hi {
                assert(t[0] == s@[lo as int]);
            }
        }
        hi = hi - 1;
    }
    let mut out: Vec<char> = Vec::new();
    let mut k: usize = lo;
    while k < hi
        invariant
            lo <= k <= hi <= s@.len(),
            out@ == s@.subrange(lo as int, k as int),
        decreases hi - k,
    {
        out.push(s[k]);
        proof {
            assert(s@.subrange(lo as int, k + 1) =~= s@.subrange(lo as int, k as int).push(s@[k as int]));
        }
        k = k + 1;
    }
    proof {
        let t = s@.subrange(lo as int, hi as int);
        if t.len() > 0 {
            assert(t[0] == s@[lo as int]);
            assert(t.last() == s@[hi - 1]);
        }
    }
    out
}

/// The lines of a text, as [`lines`] says.
pub fn split_lines(text: &str) -> (res: Vec<Vec<char>>)
    ensures
        res@.map_values(|v: Vec<char>| v@) == lines(text@),
{
    let mut done: Vec<Vec<char>> = Vec::new();
    let mut cur: Vec<char> = Vec::new();
    let ghost mut seen: Seq<char> = Seq::empty();
    for c in it: text.chars()
        invariant
            it.seq() == text@,
            seen == text@.take(it.index() as int),
            (done@.map_values(|v: Vec<char>| v@), cur@) == split_state(seen, true),
    {
        let ghost new_seen = seen.push(c);
        let ghost d0 = done@.map_values(|v: Vec<char>| v@);
        let ghost c0 = cur@;
        proof {
            assert(new_seen.drop_last() =~= seen);
            assert(new_seen.last() == c);
        }
        if c == '\n' {
            let mut line: Vec<char> = Vec::new();
            std::mem::swap(&mut line, &mut cur);
            done.push(line);
            proof {
                assert(done@.map_values(|v: Vec<char>| v@) =~= d0.push(c0));
                assert(cur@ =~= Seq::<char>::empty());
            }
        } else {
            cur.push(c);
        }
        proof {
            seen = new_seen;
            assert(seen =~= text@.take(it.index() + 1));
        }
    }
    proof {
        assert(seen =~= text@);
    }
    let ghost d0 = done@.map_values(|v: Vec<char>| v@);
    if cur.len() > 0 {
        done.push(cur);
        assert(done@.map_values(|v: Vec<char>| v@) =~= d0.push(split_state(text@, true).1));
    }
    done
}

/// Whether `bluetoothctl info` output says the device is paired.
pub fn reports_paired(info: &str) -> (res: bool)
    ensures
        res == spec_reports_paired(info@),
{
    let all = split_lines(info);
    let ghost ls = all@.map_values(|v: Vec<char>| v@);
    let target: [char; 11] = ['P', 'a', 'i', 'r', 'e', 'd', ':', ' ', 'y', 'e', 's'];
    assert(target@ =~= paired_line());
    let mut i: usize = 0;
    while i < all.len()
        invariant
            i <= all@.len(),
            ls == all@.map_values(|v: Vec<char>| v@),
            ls == lines(info@),
            target@ == paired_line(),
            forall|k: int| 0 <= k < i ==> trim(#[trigger] ls[k]) != paired_line(),
        decreases all@.len() - i,
    {
        let t = trim_chars(&all[i]);
        if chars_equal(&t, target.as_slice()) {
            assert(trim(ls[i as int]) == paired_line());
            return true;
        }
        i = i + 1;
    }
    false
}

/// The board picked from a numbered list of `count` boards by the number
/// the user typed (counting from 1), if that number is on the list.
pub fn board_from_answer(answer: Option<usize>, count: usize) -> (res: Option<usize>)
    ensures
        res == match answer {
            Some(n) => if 1 <= n && n - 1 < count { Some((n - 1) as usize) } else { None },
            None => None,
        },
{
    match answer {
        Some(n) => if n >= 1 && n - 1 < count {
            Some(n - 1)
        } else {
            None
        },
        None => None,
    }
}
} // verus!
