use vstd::prelude::*;

verus! {

/// The whitespace characters that trimming and token splitting recognise.
pub open spec fn is_space(c: char) -> bool {
    c == ' ' || c == '\t' || c == '\n' || c == '\r'
}

/// Runtime test for `is_space`.
pub fn is_space_char(c: char) -> (r: bool)
    ensures
        r == is_space(c),
{
    c == ' ' || c == '\t' || c == '\n' || c == '\r'
}

/// The sequence with its leading whitespace removed.
pub open spec fn ltrim(s: Seq<char>) -> Seq<char>
    decreases s.len(),
{
    if s.len() > 0 && is_space(s[0]) {
        ltrim(s.drop_first())
    } else {
        s
    }
}

/// The sequence with its trailing whitespace removed.
pub open spec fn rtrim(s: Seq<char>) -> Seq<char>
    decreases s.len(),
{
    if s.len() > 0 && is_space(s.last()) {
        rtrim(s.drop_last())
    } else {
        s
    }
}

/// The sequence with surrounding whitespace removed.
pub open spec fn trimmed(s: Seq<char>) -> Seq<char> {
    rtrim(ltrim(s))
}

/// `ltrim` keeps exactly the suffix that starts at the first non-space
/// character.
pub(crate) proof fn lemma_ltrim_at(s: Seq<char>, k: int)
    requires
        0 <= k <= s.len(),
        forall|j: int| 0 <= j < k ==> is_space(s[j]),
        k == s.len() || !is_space(s[k]),
    ensures
        ltrim(s) == s.subrange(k, s.len() as int),
    decreases k,
{
    if k == 0 {
        assert(s.subrange(0, s.len() as int) =~= s);
    } else {
        let t = s.drop_first();
        assert(t =~= s.subrange(1, s.len() as int));
        assert(forall|j: int| 0 <= j < k - 1 ==> is_space(t[j]));
        lemma_ltrim_at(t, k - 1);
        assert(t.subrange(k - 1, t.len() as int) =~= s.subrange(k, s.len() as int));
    }
}

/// `rtrim` keeps exactly the prefix that ends after the last non-space
/// character.
pub(crate) proof fn lemma_rtrim_at(s: Seq<char>, e: int)
    requires
        0 <= e <= s.len(),
        forall|j: int| e <= j < s.len() ==> is_space(s[j]),
        e == 0 || !is_space(s[e - 1]),
    ensures
        rtrim(s) == s.subrange(0, e),
    decreases s.len() - e,
{
    if e == s.len() {
        assert(s.subrange(0, e) =~= s);
    } else {
        assert(is_space(s.last()));
        let t = s.drop_last();
        assert(t =~= s.subrange(0, s.len() - 1));
        assert(forall|j: int| e <= j < t.len() ==> is_space(t[j]));
        lemma_rtrim_at(t, e);
        assert(t.subrange(0, e) =~= s.subrange(0, e));
    }
}

/// A lower-case file letter, as the canonical notations use.
pub open spec fn is_lower_file(c: char) -> bool {
    c == 'a' || c == 'b' || c == 'c' || c == 'd' || c == 'e' || c == 'f' || c == 'g' || c == 'h'
}

/// A file letter, upper or lower case: the first character of a square is
/// lower-cased before matching.
pub open spec fn is_file_char(c: char) -> bool {
    is_lower_file(c) || c == 'A' || c == 'B' || c == 'C' || c == 'D' || c == 'E' || c == 'F'
        || c == 'G' || c == 'H'
}

/// The 0-based file column of a file letter ('a' and 'A' both give 0).
pub open spec fn file_value(c: char) -> int {
    if c == 'a' || c == 'A' {
        0
    } else if c == 'b' || c == 'B' {
        1
    } else if c == 'c' || c == 'C' {
        2
    } else if c == 'd' || c == 'D' {
        3
    } else if c == 'e' || c == 'E' {
        4
    } else if c == 'f' || c == 'F' {
        5
    } else if c == 'g' || c == 'G' {
        6
    } else {
        7
    }
}

/// A rank digit.
pub open spec fn is_rank_char(c: char) -> bool {
    c == '1' || c == '2' || c == '3' || c == '4' || c == '5' || c == '6' || c == '7' || c == '8'
}

/// The numeric value of a rank digit.
pub open spec fn rank_value(c: char) -> int {
    if c == '1' {
        1
    } else if c == '2' {
        2
    } else if c == '3' {
        3
    } else if c == '4' {
        4
    } else if c == '5' {
        5
    } else if c == '6' {
        6
    } else if c == '7' {
        7
    } else {
        8
    }
}

/// The board index a valid (file, rank) character pair denotes: row-major,
/// with row 0 the eighth rank and row 7 the first.
pub open spec fn square_index(f: char, r: char) -> int {
    file_value(f) + (8 - rank_value(r)) * 8
}

/// What parsing a square string yields: after trimming, the text must be
/// exactly a file letter followed by a rank digit.
pub open spec fn parse_square(s: Seq<char>) -> Option<int> {
    let t = trimmed(s);
    if t.len() == 2 && is_file_char(t[0]) && is_rank_char(t[1]) {
        Some(square_index(t[0], t[1]))
    } else {
        None
    }
}

/// A parsed square index always lies on the board.
pub proof fn lemma_parse_square_in_range(s: Seq<char>)
    requires
        parse_square(s) is Some,
    ensures
        0 <= parse_square(s)->0 < 64,
{
}

/// The canonical lower-case letter of a file column.
pub open spec fn file_char(f: int) -> char {
    if f == 0 {
        'a'
    } else if f == 1 {
        'b'
    } else if f == 2 {
        'c'
    } else if f == 3 {
        'd'
    } else if f == 4 {
        'e'
    } else if f == 5 {
        'f'
    } else if f == 6 {
        'g'
    } else {
        'h'
    }
}

/// The rank digit shown for a row: row 0 is rank 8, row 7 is rank 1.
pub open spec fn rank_char(row: int) -> char {
    if row == 0 {
        '8'
    } else if row == 1 {
        '7'
    } else if row == 2 {
        '6'
    } else if row == 3 {
        '5'
    } else if row == 4 {
        '4'
    } else if row == 5 {
        '3'
    } else if row == 6 {
        '2'
    } else {
        '1'
    }
}

/// The canonical two-character notation of a board index.
pub open spec fn notation_of(i: int) -> Seq<char> {
    seq![file_char(i % 8), rank_char(i / 8)]
}

/// Round trip, index first: parsing the canonical notation of any board
/// index returns that index, so the canonical notations cover all of
/// [0, 63].
pub proof fn lemma_notation_round_trip(i: int)
    requires
        0 <= i < 64,
    ensures
        parse_square(notation_of(i)) == Some(i),
{
    let s = notation_of(i);
    assert(!is_space(s[0]));
    assert(!is_space(s.last()));
    assert(ltrim(s) == s);
    assert(rtrim(s) == s);
    assert(file_value(s[0]) == i % 8);
    assert(8 - rank_value(s[1]) == i / 8);
    assert(i % 8 + (i / 8) * 8 == i) by {
        vstd::arithmetic::div_mod::lemma_fundamental_div_mod(i, 8);
    }
}

/// Round trip, notation first: a canonical notation is recovered from the
/// index it parses to, so no two canonical notations share an index.
pub proof fn lemma_notation_of_parse(s: Seq<char>)
    requires
        s.len() == 2,
        is_lower_file(s[0]),
        is_rank_char(s[1]),
    ensures
        parse_square(s) is Some,
        notation_of(parse_square(s)->0) == s,
{
    assert(!is_space(s[0]));
    assert(!is_space(s.last()));
    assert(ltrim(s) == s);
    assert(rtrim(s) == s);
    let f = file_value(s[0]);
    let r = 8 - rank_value(s[1]);
    let i = f + r * 8;
    assert(parse_square(s) == Some(i));
    assert(i % 8 == f && i / 8 == r) by {
        vstd::arithmetic::div_mod::lemma_fundamental_div_mod_converse(i, 8, r, f);
    }
    assert(file_char(f) == s[0]);
    assert(rank_char(r) == s[1]);
    assert(notation_of(i) =~= s);
}

/// The canonical notation of a board index: lower-case file letter, then
/// rank digit. This is the inverse of square parsing on the 64 valid squares.
pub fn index_to_pos(i: usize) -> (s: String)
    requires
        i < 64,
    ensures
        s@ == notation_of(i as int),
{
    let f = i % 8;
    let row = i / 8;
    let file_s: &str = match f {
        0 => "a",
        1 => "b",
        2 => "c",
        3 => "d",
        4 => "e",
        5 => "f",
        6 => "g",
        _ => "h",
    };
    let rank_s: &str = match row {
        0 => "8",
        1 => "7",
        2 => "6",
        3 => "5",
        4 => "4",
        5 => "3",
        6 => "2",
        _ => "1",
    };
    proof {
        reveal_strlit("a");
        reveal_strlit("b");
        reveal_strlit("c");
        reveal_strlit("d");
        reveal_strlit("e");
        reveal_strlit("f");
        reveal_strlit("g");
        reveal_strlit("h");
        reveal_strlit("1");
        reveal_strlit("2");
        reveal_strlit("3");
        reveal_strlit("4");
        reveal_strlit("5");
        reveal_strlit("6");
        reveal_strlit("7");
        reveal_strlit("8");
        assert(file_s@ =~= seq![file_char(i as int % 8)]);
        assert(rank_s@ =~= seq![rank_char(i as int / 8)]);
    }
    let mut s = String::new();
    s.append(file_s);
    s.append(rank_s);
    proof {
        assert(s@ =~= notation_of(i as int));
    }
    s
}

/// The rank digit of a display row as a one-character string slice.
pub fn rank_digit_str(row: usize) -> (s: &'static str)
    requires
        row < 8,
    ensures
        s@ == seq![rank_char(row as int)],
{
    let s: &str = match row {
        0 => "8",
        1 => "7",
        2 => "6",
        3 => "5",
        4 => "4",
        5 => "3",
        6 => "2",
        _ => "1",
    };
    proof {
        reveal_strlit("1");
        reveal_strlit("2");
        reveal_strlit("3");
        reveal_strlit("4");
        reveal_strlit("5");
        reveal_strlit("6");
        reveal_strlit("7");
        reveal_strlit("8");
        assert(s@ =~= seq![rank_char(row as int)]);
    }
    s
}

/// The whitespace-separated tokens of a character sequence, in order and
/// without the surrounding whitespace.
pub open spec fn split_ws(s: Seq<char>) -> Seq<Seq<char>>
    decreases s.len(),
{
    if s.len() == 0 {
        Seq::empty()
    } else if is_space(s[0]) {
        split_ws(s.drop_first())
    } else {
        let rest = split_ws(s.drop_first());
        if s.len() > 1 && !is_space(s[1]) {
            seq![seq![s[0]] + rest[0]] + rest.drop_first()
        } else {
            seq![seq![s[0]]] + rest
        }
    }
}

/// Dropping one leading space leaves the tokens unchanged.
pub(crate) proof fn lemma_split_ws_space(s: Seq<char>)
    requires
        s.len() > 0,
        is_space(s[0]),
    ensures
        split_ws(s) == split_ws(s.subrange(1, s.len() as int)),
{
    assert(s.drop_first() =~= s.subrange(1, s.len() as int));
}

/// A maximal leading run of non-space characters is the first token, and the
/// remaining tokens are those of what follows it.
pub(crate) proof fn lemma_split_ws_token(s: Seq<char>, k: int)
    requires
        1 <= k <= s.len(),
        forall|j: int| 0 <= j < k ==> !is_space(s[j]),
        k == s.len() || is_space(s[k]),
    ensures
        split_ws(s) == seq![s.subrange(0, k)] + split_ws(s.subrange(k, s.len() as int)),
    decreases k,
{
    let t = s.drop_first();
    assert(t =~= s.subrange(1, s.len() as int));
    if k == 1 {
        assert(seq![s[0]] =~= s.subrange(0, 1));
        assert(split_ws(s) == seq![seq![s[0]]] + split_ws(t));
        assert(t =~= s.subrange(1, s.len() as int));
    } else {
        assert(!is_space(s[1]));
        assert(forall|j: int| 0 <= j < k - 1 ==> !is_space(t[j]));
        lemma_split_ws_token(t, k - 1);
        let rest = split_ws(t);
        assert(rest[0] == t.subrange(0, k - 1));
        assert(seq![s[0]] + rest[0] =~= s.subrange(0, k));
        assert(rest.drop_first() =~= split_ws(t.subrange(k - 1, t.len() as int)));
        assert(t.subrange(k - 1, t.len() as int) =~= s.subrange(k, s.len() as int));
        assert(split_ws(s) == seq![seq![s[0]] + rest[0]] + rest.drop_first());
        assert(seq![s.subrange(0, k)] + split_ws(s.subrange(k, s.len() as int)) =~= seq![seq![s[0]]
            + rest[0]] + rest.drop_first());
    }
}

/// The views of a sequence of string slices.
pub open spec fn views_of(ts: Seq<&str>) -> Seq<Seq<char>> {
    Seq::new(ts.len(), |i: int| ts[i]@)
}

/// Splits a string into its whitespace-separated tokens.
pub fn split_whitespace_tokens<'a>(s: &'a str) -> (toks: Vec<&'a str>)
    ensures
        views_of(toks@) == split_ws(s@),
{
    let n = s.unicode_len();
    let mut toks: Vec<&str> = Vec::new();
    let mut i: usize = 0;
    proof {
        assert(s@.subrange(0, n as int) =~= s@);
        assert(views_of(toks@) =~= Seq::<Seq<char>>::empty());
        assert(Seq::<Seq<char>>::empty() + split_ws(s@) =~= split_ws(s@));
    }
    while i < n
        invariant
            i <= n,
            n == s@.len(),
            split_ws(s@) == views_of(toks@) + split_ws(s@.subrange(i as int, n as int)),
        decreases n - i,
    {
        let c = s.get_char(i);
        if is_space_char(c) {
            proof {
                let u = s@.subrange(i as int, n as int);
                lemma_split_ws_space(u);
                assert(u.subrange(1, u.len() as int) =~= s@.subrange(i as int + 1, n as int));
            }
            i = i + 1;
        } else {
            let start = i;
            let mut j = i + 1;
            while j < n && !is_space_char(s.get_char(j))
                invariant
                    start < j <= n,
                    n == s@.len(),
                    forall|m: int| start <= m < j ==> !is_space(s@[m]),
                decreases n - j,
            {
                j = j + 1;
            }
            let tok = s.substring_char(start, j);
            let ghost pre = toks@;
            toks.push(tok);
            proof {
                let u = s@.subrange(start as int, n as int);
                assert(forall|m: int| 0 <= m < j - start ==> !is_space(u[m]));
                lemma_split_ws_token(u, j - start);
                assert(u.subrange(0, j as int - start as int) =~= s@.subrange(
                    start as int,
                    j as int,
                ));
                assert(u.subrange(j as int - start as int, u.len() as int) =~= s@.subrange(
                    j as int,
                    n as int,
                ));
                assert(views_of(toks@) =~= views_of(pre) + seq![tok@]);
                assert(views_of(pre) + (seq![tok@] + split_ws(s@.subrange(j as int, n as int)))
                    =~= (views_of(pre) + seq![tok@]) + split_ws(s@.subrange(j as int, n as int)));
            }
            i = j;
        }
    }
    proof {
        assert(s@.subrange(n as int, n as int) =~= Seq::<char>::empty());
        assert(views_of(toks@) + Seq::<Seq<char>>::empty() =~= views_of(toks@));
    }
    toks
}

} // verus!
