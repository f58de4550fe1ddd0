use vstd::prelude::*;

use crate::error::{ErrorType, SDKError};
use crate::text::{
    chars_of, digits_end, find_char, find_from, ident_end, lemma_find_bounds, lit_at, match_lit,
    number, parse_number, skip_digits, skip_ident, skip_space, space_end, string_of_range,
};

verus! {

/// A week-occurrence mask: only `0` and `1`, and short enough that every
/// week index fits in an `i32`.
pub open spec fn mask_ok(m: Seq<char>) -> bool {
    m.len() <= 0x8000_0000 && forall|i: int| 0 <= i < m.len() ==> (#[trigger] m[i] == '0' || m[i] == '1')
}

/// The weeks a mask marks, in increasing order: every position that holds `1`.
pub open spec fn weeks_of(m: Seq<char>) -> Seq<int>
    decreases m.len(),
{
    if m.len() == 0 {
        Seq::empty()
    } else if m.last() == '1' {
        weeks_of(m.drop_last()).push(m.len() - 1)
    } else {
        weeks_of(m.drop_last())
    }
}

/// The mask of length `n` that marks exactly the weeks in `ws`.
pub open spec fn mask_of(ws: Seq<int>, n: nat) -> Seq<char> {
    Seq::new(n, |i: int| if ws.contains(i) { '1' } else { '0' })
}

pub open spec fn ints(v: Seq<i32>) -> Seq<int> {
    v.map_values(|x: i32| x as int)
}

proof fn lemma_weeks_contains(m: Seq<char>, i: int)
    ensures
        weeks_of(m).contains(i) <==> (0 <= i < m.len() && m[i] == '1'),
    decreases m.len(),
{
    if m.len() > 0 {
        let p = m.drop_last();
        lemma_weeks_contains(p, i);
        if m.last() == '1' {
            let w = weeks_of(p);
            let ww = w.push(m.len() - 1);
            if ww.contains(i) {
                let k = choose|k: int| 0 <= k < ww.len() && #[trigger] ww[k] == i;
                if k < w.len() {
                    assert(w[k] == i);
                }
            }
            if 0 <= i < m.len() && m[i] == '1' {
                if i == m.len() - 1 {
                    assert(ww[w.len() as int] == i);
                } else {
                    assert(p[i] == m[i]);
                    let k = choose|k: int| 0 <= k < w.len() && #[trigger] w[k] == i;
                    assert(ww[k] == i);
                }
            }
        } else {
            if 0 <= i < m.len() - 1 {
                assert(p[i] == m[i]);
            }
        }
    }
}

/// Decoding a valid mask into its weeks and encoding them again at the
/// mask's length gives back the mask.
pub proof fn lemma_weeks_round_trip(m: Seq<char>)
    requires
        mask_ok(m),
    ensures
        mask_of(weeks_of(m), m.len()) == m,
{
    assert forall|i: int| 0 <= i < m.len() implies #[trigger] mask_of(weeks_of(m), m.len())[i]
        == m[i] by {
        lemma_weeks_contains(m, i);
    }
    assert(mask_of(weeks_of(m), m.len()) =~= m);
}

/// The weeks marked by `t[a..b]`, or `None` where that is no valid mask.
fn decode_range(t: &Vec<char>, a: usize, b: usize) -> (r: Option<Vec<i32>>)
    requires
        a <= b <= t@.len(),
    ensures
        match r {
            Some(v) => mask_ok(t@.subrange(a as int, b as int)) && ints(v@) == weeks_of(
                t@.subrange(a as int, b as int),
            ),
            None => !mask_ok(t@.subrange(a as int, b as int)),
        },
{
    if b - a > 0x8000_0000 {
        return None;
    }
    let mut out: Vec<i32> = Vec::new();
    let mut k = a;
    while k < b
        invariant
            a <= k <= b <= t@.len(),
            b - a <= 0x8000_0000,
            mask_ok(t@.subrange(a as int, k as int)),
            ints(out@) == weeks_of(t@.subrange(a as int, k as int)),
        decreases b - k,
    {
        let ghost before = t@.subrange(a as int, k as int);
        let ghost after = t@.subrange(a as int, k + 1);
        assert(after.drop_last() =~= before);
        assert(after.last() == t@[k as int]);
        if t[k] == '1' {
            out.push((k - a) as i32);
            assert(ints(out@) =~= ints(out@.drop_last()).push((k - a) as int));
        } else if t[k] != '0' {
            assert(!mask_ok(t@.subrange(a as int, b as int))) by {
                assert(t@.subrange(a as int, b as int)[k - a] == t@[k as int]);
            }
            return None;
        }
        assert(forall|i: int| 0 <= i < after.len() ==> #[trigger] after[i] == (if i < before.len() { before[i] } else { t@[k as int] }));
        k = k + 1;
    }
    Some(out)
}

/// The weeks that a mask marks, each a position of `1` counted from 0.
/// A mask with any other character is refused.
pub fn decode_weeks(mask: &str) -> (r: Result<Vec<i32>, SDKError>)
    ensures
        match r {
            Ok(v) => mask_ok(mask@) && ints(v@) == weeks_of(mask@),
            Err(e) => !mask_ok(mask@) && e.kind == ErrorType::ParseError,
        },
{
    let t = chars_of(mask);
    assert(t@.subrange(0, t@.len() as int) =~= mask@);
    match decode_range(&t, 0, t.len()) {
        Some(v) => Ok(v),
        None => Err(SDKError::with_type(ErrorType::ParseError, String::from_str("malformed week mask"))),
    }
}

/// The mask of length `len` that marks exactly the given weeks.
pub fn encode_weeks(weeks: &Vec<i32>, len: usize) -> (r: String)
    ensures
        r@ == mask_of(ints(weeks@), len as nat),
{
    let mut out: Vec<char> = Vec::new();
    let mut i: usize = 0;
    while i < len
        invariant
            i <= len,
            out@.len() == i,
            forall|j: int| 0 <= j < i ==> #[trigger] out@[j] == mask_of(ints(weeks@), len as nat)[j],
        decreases len - i,
    {
        let mut found = false;
        let mut k: usize = 0;
        while k < weeks.len()
            invariant
                k <= weeks@.len(),
                found <==> exists|m: int| 0 <= m < k && #[trigger] ints(weeks@)[m] == i,
            decreases weeks.len() - k,
        {
            if weeks[k] >= 0 && weeks[k] as usize == i {
                assert(ints(weeks@)[k as int] == i);
                found = true;
            } else {
                assert(ints(weeks@)[k as int] != i);
            }
            k = k + 1;
        }
        out.push(if found { '1' } else { '0' });
        i = i + 1;
    }
    assert(out@ =~= mask_of(ints(weeks@), len as nat));
    string_of_range(&out, 0, out.len())
}

/// One activity of a course table: who teaches it, where, in which weeks,
/// and in which (day, period) cells of the week.
#[derive(Debug)]
pub struct CourseData {
    id: String,
    teacher: String,
    name_with_course_id: String,
    classroom: String,
    weeks: Vec<i32>,
    time: Vec<(i32, i32)>,
}

/// What a `CourseData` holds, as mathematical values.
pub struct CourseView {
    pub id: Seq<char>,
    pub teacher: Seq<char>,
    pub name_with_course_id: Seq<char>,
    pub classroom: Seq<char>,
    pub weeks: Seq<int>,
    pub time: Seq<(int, int)>,
}

pub open spec fn int_pairs(v: Seq<(i32, i32)>) -> Seq<(int, int)> {
    v.map_values(|p: (i32, i32)| (p.0 as int, p.1 as int))
}

impl View for CourseData {
    type V = CourseView;

    closed spec fn view(&self) -> CourseView {
        CourseView {
            id: self.id@,
            teacher: self.teacher@,
            name_with_course_id: self.name_with_course_id@,
            classroom: self.classroom@,
            weeks: ints(self.weeks@),
            time: int_pairs(self.time@),
        }
    }
}

impl CourseData {
    /// The activity's internal id.
    pub fn id(&self) -> (r: &str)
        ensures
            r@ == self@.id,
    {
        self.id.as_str()
    }

    /// The instructor.
    pub fn teacher(&self) -> (r: &str)
        ensures
            r@ == self@.teacher,
    {
        self.teacher.as_str()
    }

    /// The display name, which carries the course code and section.
    pub fn name_with_course_id(&self) -> (r: &str)
        ensures
            r@ == self@.name_with_course_id,
    {
        self.name_with_course_id.as_str()
    }

    /// The room.
    pub fn classroom(&self) -> (r: &str)
        ensures
            r@ == self@.classroom,
    {
        self.classroom.as_str()
    }

    /// The weeks of term in which the activity meets, counted from 0.
    pub fn weeks(&self) -> (r: &[i32])
        ensures
            ints(r@) == self@.weeks,
    {
        self.weeks.as_slice()
    }

    /// The (day, period) cells the activity occupies in a week.
    pub fn time(&self) -> (r: &[(i32, i32)])
        ensures
            int_pairs(r@) == self@.time,
    {
        self.time.as_slice()
    }
}

/// A double-quoted argument at `i`: the span of its text.
pub open spec fn quoted_at(t: Seq<char>, i: int) -> Option<(int, int)> {
    if 0 <= i < t.len() && t[i] == '"' {
        let j = find_from(t, i + 1, '"');
        if j >= 0 {
            Some((i + 1, j))
        } else {
            None
        }
    } else {
        None
    }
}

/// `n` quoted arguments separated by commas, starting at `i`: their spans
/// and the position after the last closing quote.
pub open spec fn args_at(t: Seq<char>, i: int, n: nat) -> Option<(Seq<(int, int)>, int)>
    decreases n,
{
    match quoted_at(t, i) {
        None => None,
        Some(span) => if n <= 1 {
            Some((seq![span], span.1 + 1))
        } else if 0 <= span.1 + 1 < t.len() && t[span.1 + 1] == ',' {
            match args_at(t, span.1 + 2, (n - 1) as nat) {
                Some(rest) => Some((seq![span] + rest.0, rest.1)),
                None => None,
            }
        } else {
            None
        },
    }
}

/// The statement `activity = new Ctor("..", .. seven arguments ..);` at `i`:
/// the spans of its arguments and the position after it.
pub open spec fn header_at(t: Seq<char>, i: int) -> Option<(Seq<(int, int)>, int)> {
    let a = i + "activity = new "@.len();
    let c = ident_end(t, a);
    if lit_at(t, i, "activity = new "@) && c > a && c < t.len() && t[c] == '(' {
        match args_at(t, c + 1, 7) {
            Some(r) => if lit_at(t, r.1, ");"@) {
                Some((r.0, r.1 + 2))
            } else {
                None
            },
            None => None,
        }
    } else {
        None
    }
}

/// The end of a store statement that starts at `p`: it runs to the next `;`
/// and ends in `=activity`; -1 where there is none.
pub open spec fn store_end(t: Seq<char>, p: int) -> int {
    let j = find_from(t, p, ';');
    if j >= p + "=activity"@.len() && lit_at(t, j - "=activity"@.len(), "=activity"@) {
        j + 1
    } else {
        -1
    }
}

/// After optional whitespace at `i`, `index = D*unitCount+P;` and its store
/// statement: the day `D`, the period `P`, and the position after the store.
pub open spec fn pair_at(t: Seq<char>, i: int) -> Option<(nat, nat, int)> {
    let s = space_end(t, i);
    let e = space_end(t, s + "index"@.len());
    let a = space_end(t, e + 1);
    let b = digits_end(t, a);
    let c = b + "*unitCount+"@.len();
    let d = digits_end(t, c);
    let f = store_end(t, space_end(t, d + 1));
    if lit_at(t, s, "index"@) && e < t.len() && t[e] == '=' && b > a && lit_at(
        t,
        b,
        "*unitCount+"@,
    ) && d > c && d < t.len() && t[d] == ';' && f >= 0 {
        Some((number(t, a, b), number(t, c, d), f))
    } else {
        None
    }
}

/// The run of index/store pairs that starts at `i`, and where it ends.
pub open spec fn pairs_from(t: Seq<char>, i: int) -> (Seq<(nat, nat)>, int)
    decreases t.len() - i,
{
    match pair_at(t, i) {
        Some(p) => if i < p.2 <= t.len() {
            let rest = pairs_from(t, p.2);
            (seq![(p.0, p.1)] + rest.0, rest.1)
        } else {
            (Seq::empty(), i)
        },
        None => (Seq::empty(), i),
    }
}

pub open spec fn slot_fits(s: (nat, nat)) -> bool {
    s.0 <= i32::MAX && s.1 <= i32::MAX
}

pub open spec fn field(t: Seq<char>, span: (int, int)) -> Seq<char> {
    t.subrange(span.0, span.1)
}

/// The activity that a header and its run of cells describe, or `None`
/// where the mask or a cell number is malformed. The arguments are: id,
/// teacher, code, display name, room code, room, week mask.
pub open spec fn course_of(t: Seq<char>, spans: Seq<(int, int)>, slots: Seq<(nat, nat)>) -> Option<
    CourseView,
> {
    let mask = field(t, spans[6]);
    if mask_ok(mask) && forall|k: int| 0 <= k < slots.len() ==> slot_fits(#[trigger] slots[k]) {
        Some(
            CourseView {
                id: field(t, spans[0]),
                teacher: field(t, spans[1]),
                name_with_course_id: field(t, spans[3]),
                classroom: field(t, spans[5]),
                weeks: weeks_of(mask),
                time: slots.map_values(|s: (nat, nat)| (s.0 as int, s.1 as int)),
            },
        )
    } else {
        None
    }
}

/// The activity block at `i` (a header and the run of cells after it):
/// what it describes and where it ends.
pub open spec fn activity_at(t: Seq<char>, i: int) -> Option<(Option<CourseView>, int)> {
    match header_at(t, i) {
        Some(h) => {
            let run = pairs_from(t, h.1);
            Some((course_of(t, h.0, run.0), run.1))
        },
        None => None,
    }
}

/// The activity blocks of `t` from position `i` on, in order: each is taken
/// where it starts, and the scan goes on after it.
pub open spec fn blocks_from(t: Seq<char>, i: int) -> Seq<Option<CourseView>>
    decreases t.len() - i,
{
    if i < 0 || i >= t.len() {
        Seq::empty()
    } else {
        match activity_at(t, i) {
            Some(a) => if i < a.1 <= t.len() {
                seq![a.0] + blocks_from(t, a.1)
            } else {
                blocks_from(t, i + 1)
            },
            None => blocks_from(t, i + 1),
        }
    }
}

/// The activities of a course-table page, in the order their text appears.
pub open spec fn schedule_of(t: Seq<char>) -> Seq<Option<CourseView>> {
    blocks_from(t, 0)
}

/// A parse result stands for the described activity; a malformed one is a
/// parse error.
pub open spec fn result_is(r: Result<CourseData, SDKError>, m: Option<CourseView>) -> bool {
    match r {
        Ok(c) => m == Some(c@),
        Err(e) => m is None && e.kind == ErrorType::ParseError,
    }
}

pub open spec fn span_ints(v: Seq<(usize, usize)>) -> Seq<(int, int)> {
    v.map_values(|p: (usize, usize)| (p.0 as int, p.1 as int))
}

fn parse_quoted(t: &Vec<char>, i: usize) -> (r: Option<(usize, usize)>)
    ensures
        match quoted_at(t@, i as int) {
            Some(span) => r is Some && (r->0).0 == span.0 && (r->0).1 == span.1 && span.0 <= span.1
                < t@.len(),
            None => r is None,
        },
{
    if i < t.len() && t[i] == '"' {
        proof {
            lemma_find_bounds(t@, i + 1, '"');
        }
        match find_char(t, i + 1, '"') {
            Some(j) => {
                assert(quoted_at(t@, i as int) == Some(((i + 1) as int, j as int)));
                Some((i + 1, j))
            },
            None => None,
        }
    } else {
        None
    }
}

fn parse_args(t: &Vec<char>, i: usize, n: usize) -> (r: Option<(Vec<(usize, usize)>, usize)>)
    ensures
        match args_at(t@, i as int, n as nat) {
            Some(a) => r is Some && span_ints((r->0).0@) == a.0 && (r->0).1 == a.1 && forall|k: int|
                0 <= k < a.0.len() ==> #[trigger] a.0[k].0 <= a.0[k].1 < t@.len(),
            None => r is None,
        },
    decreases n,
{
    let len = t.len();
    match parse_quoted(t, i) {
        None => None,
        Some((a, b)) => {
            if n <= 1 {
                let v = vec![(a, b)];
                assert(span_ints(v@) =~= seq![(a as int, b as int)]);
                Some((v, b + 1))
            } else if b + 1 < t.len() && t[b + 1] == ',' {
                match parse_args(t, b + 2, n - 1) {
                    Some((rest, e)) => {
                        let ghost old_rest = rest@;
                        let mut v = rest;
                        v.insert(0, (a, b));
                        assert(span_ints(v@) =~= seq![(a as int, b as int)] + span_ints(old_rest));
                        Some((v, e))
                    },
                    None => None,
                }
            } else {
                None
            }
        },
    }
}

fn parse_header(t: &Vec<char>, i: usize) -> (r: Option<(Vec<(usize, usize)>, usize)>)
    requires
        i <= t@.len(),
    ensures
        match header_at(t@, i as int) {
            Some(h) => r is Some && span_ints((r->0).0@) == h.0 && (r->0).1 == h.1 && h.0.len() == 7
                && forall|k: int| 0 <= k < 7 ==> #[trigger] h.0[k].0 <= h.0[k].1 < t@.len(),
            None => r is None,
        },
{
    proof {
        reveal_strlit("activity = new ");
        reveal_strlit(");");
    }
    let n = t.len();
    if !match_lit(t, i, "activity = new ") {
        return None;
    }
    let a = i + 15;
    let c = skip_ident(t, a);
    if !(c > a && c < t.len() && t[c] == '(') {
        return None;
    }
    match parse_args(t, c + 1, 7) {
        Some((spans, e)) => {
            proof {
                lemma_args_len(t@, c + 1, 7);
            }
            if match_lit(t, e, ");") {
                Some((spans, e + 2))
            } else {
                None
            }
        },
        None => None,
    }
}

proof fn lemma_args_len(t: Seq<char>, i: int, n: nat)
    requires
        n >= 1,
    ensures
        args_at(t, i, n) is Some ==> (args_at(t, i, n)->0).0.len() == n,
    decreases n,
{
    if n > 1 {
        match quoted_at(t, i) {
            Some(span) => lemma_args_len(t, span.1 + 2, (n - 1) as nat),
            None => {},
        }
    }
}

fn parse_store(t: &Vec<char>, p: usize) -> (r: Option<usize>)
    ensures
        match r {
            Some(f) => f as int == store_end(t@, p as int) && f >= 0 && p < f <= t@.len(),
            None => store_end(t@, p as int) == -1,
        },
{
    proof {
        reveal_strlit("=activity");
        lemma_find_bounds(t@, p as int, ';');
    }
    let n = t.len();
    match find_char(t, p, ';') {
        Some(j) => {
            if j >= 9 && j - 9 >= p && match_lit(t, j - 9, "=activity") {
                Some(j + 1)
            } else {
                None
            }
        },
        None => None,
    }
}

fn parse_pair(t: &Vec<char>, i: usize) -> (r: Option<(Option<(i32, i32)>, usize)>)
    requires
        i <= t@.len(),
    ensures
        match pair_at(t@, i as int) {
            Some(p) => r is Some && (r->0).1 == p.2 && i < p.2 <= t@.len() && (match (r->0).0 {
                Some(v) => slot_fits((p.0, p.1)) && v.0 as int == p.0 && v.1 as int == p.1,
                None => !slot_fits((p.0, p.1)),
            }),
            None => r is None,
        },
{
    proof {
        reveal_strlit("index");
        reveal_strlit("*unitCount+");
    }
    let n = t.len();
    let s = skip_space(t, i);
    if !match_lit(t, s, "index") {
        return None;
    }
    let e = skip_space(t, s + 5);
    if !(e < t.len() && t[e] == '=') {
        return None;
    }
    let a = skip_space(t, e + 1);
    let b = skip_digits(t, a);
    if !(b > a && match_lit(t, b, "*unitCount+")) {
        return None;
    }
    let c = b + 11;
    let d = skip_digits(t, c);
    if !(d > c && d < t.len() && t[d] == ';') {
        return None;
    }
    let g = skip_space(t, d + 1);
    match parse_store(t, g) {
        None => None,
        Some(f) => {
            let day = parse_number(t, a, b);
            let period = parse_number(t, c, d);
            match (day, period) {
                (Some(x), Some(y)) => Some((Some((x, y)), f)),
                _ => Some((None, f)),
            }
        },
    }
}

/// The run of cells at `i`: the cells (meaningful where `fits`), whether all
/// cell numbers fit in an `i32`, and where the run ends.
fn parse_pairs(t: &Vec<char>, i: usize) -> (r: (Vec<(i32, i32)>, bool, usize))
    requires
        i <= t@.len(),
    ensures
        r.2 as int == pairs_from(t@, i as int).1,
        i <= r.2 <= t@.len(),
        r.1 <==> forall|k: int|
            0 <= k < pairs_from(t@, i as int).0.len() ==> slot_fits(
                #[trigger] pairs_from(t@, i as int).0[k],
            ),
        r.1 ==> int_pairs(r.0@) == pairs_from(t@, i as int).0.map_values(
            |s: (nat, nat)| (s.0 as int, s.1 as int),
        ),
{
    let mut acc: Vec<(i32, i32)> = Vec::new();
    let mut fits = true;
    let mut pos = i;
    let ghost done: Seq<(nat, nat)> = Seq::empty();
    loop
        invariant
            i <= pos <= t@.len(),
            pairs_from(t@, i as int) == (done + pairs_from(t@, pos as int).0, pairs_from(
                t@,
                pos as int,
            ).1),
            fits <==> forall|k: int| 0 <= k < done.len() ==> slot_fits(#[trigger] done[k]),
            fits ==> int_pairs(acc@) == done.map_values(|s: (nat, nat)| (s.0 as int, s.1 as int)),
        decreases t@.len() - pos,
    {
        match parse_pair(t, pos) {
            Some((slot, f)) => {
                let ghost p = pair_at(t@, pos as int)->0;
                let ghost rest = pairs_from(t@, f as int);
                assert(pairs_from(t@, pos as int) == (seq![(p.0, p.1)] + rest.0, rest.1));
                let ghost done2 = done.push((p.0, p.1));
                assert(done + pairs_from(t@, pos as int).0 =~= done2 + rest.0);
                match slot {
                    Some(v) => {
                        assert(v.0 as int == p.0 && v.1 as int == p.1);
                        let ghost old_acc = acc@;
                        acc.push(v);
                        proof {
                            if fits {
                                assert(int_pairs(old_acc) == done.map_values(
                                    |s: (nat, nat)| (s.0 as int, s.1 as int),
                                ));
                                assert(int_pairs(acc@).len() == done2.len());
                                assert(forall|k: int|
                                    0 <= k < done.len() ==> #[trigger] int_pairs(acc@)[k] == int_pairs(
                                        old_acc,
                                    )[k]);
                                assert(int_pairs(acc@) =~= done2.map_values(
                                    |s: (nat, nat)| (s.0 as int, s.1 as int),
                                ));
                            }
                        }
                    },
                    None => {
                        fits = false;
                    },
                }
                proof {
                    assert(done2[done.len() as int] == (p.0, p.1));
                    assert(forall|k: int| 0 <= k < done.len() ==> done2[k] == done[k]);
                    done = done2;
                }
                pos = f;
            },
            None => {
                assert(pairs_from(t@, pos as int).0 =~= Seq::<(nat, nat)>::empty());
                assert(done + pairs_from(t@, pos as int).0 =~= done);
                assert(pairs_from(t@, i as int).0 == done);
                return (acc, fits, pos);
            },
        }
    }
}

/// The activity block at `i`, with its result and the position after it.
fn parse_activity(t: &Vec<char>, i: usize) -> (r: Option<(Result<CourseData, SDKError>, usize)>)
    requires
        i <= t@.len(),
    ensures
        match activity_at(t@, i as int) {
            Some(a) => r is Some && (r->0).1 == a.1 && result_is((r->0).0, a.0) && a.1 <= t@.len(),
            None => r is None,
        },
{
    match parse_header(t, i) {
        None => None,
        Some((spans, h)) => {
            proof {
                reveal_strlit("activity = new ");
                reveal_strlit(");");
            }
            let ghost hs = (header_at(t@, i as int)->0).0;
            assert(forall|k: int| 0 <= k < 7 ==> spans@[k].0 as int == hs[k].0 && spans@[k].1 as int
                == hs[k].1) by {
                assert(forall|k: int| 0 <= k < 7 ==> #[trigger] span_ints(spans@)[k] == hs[k]);
            }
            assert(span_ints(spans@)[6] == hs[6]);
            assert(hs[6].0 <= hs[6].1 < t@.len());
            let (cells, fits, end) = parse_pairs(t, h);
            let weeks = decode_range(t, spans[6].0, spans[6].1);
            let ghost run = pairs_from(t@, h as int);
            let result = match weeks {
                Some(w) if fits => {
                    assert(run.0.map_values(|s: (nat, nat)| (s.0 as int, s.1 as int)) == int_pairs(
                        cells@,
                    ));
                    let c = CourseData {
                            id: string_of_range(t, spans[0].0, spans[0].1),
                            teacher: string_of_range(t, spans[1].0, spans[1].1),
                            name_with_course_id: string_of_range(t, spans[3].0, spans[3].1),
                            classroom: string_of_range(t, spans[5].0, spans[5].1),
                            weeks: w,
                            time: cells,
                        };
                    assert(c@ == course_of(t@, hs, run.0).unwrap());
                    Ok(c)
                },
                _ => Err(
                    SDKError::with_type(ErrorType::ParseError, String::from_str("malformed activity")),
                ),
            };
            Some((result, end))
        },
    }
}

/// The activities of a course-table page, in the order their text appears. Each block is
/// an `activity = new ...;` statement and the run of `index = D*unitCount+P;`
/// cell statements after it; a block whose week mask or cell numbers are
/// malformed stands as a parse error in its place, and the scan goes on.
pub fn parse_course_data(html: &str) -> (r: Vec<Result<CourseData, SDKError>>)
    ensures
        r@.len() == schedule_of(html@).len(),
        forall|k: int| 0 <= k < r@.len() ==> result_is(#[trigger] r@[k], schedule_of(html@)[k]),
{
    let t = chars_of(html);
    let mut out: Vec<Result<CourseData, SDKError>> = Vec::new();
    let mut i: usize = 0;
    while i < t.len()
        invariant
            i <= t@.len(),
            t@ == html@,
            out@.len() + blocks_from(t@, i as int).len() == schedule_of(t@).len(),
            forall|k: int| 0 <= k < out@.len() ==> result_is(#[trigger] out@[k], schedule_of(t@)[k]),
            forall|k: int|
                0 <= k < blocks_from(t@, i as int).len() ==> #[trigger] blocks_from(t@, i as int)[k]
                    == schedule_of(t@)[out@.len() + k],
        decreases t@.len() - i,
    {
        match parse_activity(&t, i) {
            Some((res, e)) if i < e => {
                let ghost rest = blocks_from(t@, e as int);
                assert(blocks_from(t@, i as int) == seq![(activity_at(t@, i as int)->0).0] + rest);
                assert(forall|k: int| 0 <= k < rest.len() ==> rest[k] == blocks_from(t@, i as int)[k + 1]);
                assert(blocks_from(t@, i as int)[0] == schedule_of(t@)[out@.len() as int]);
                out.push(res);
                i = e;
            },
            _ => {
                i = i + 1;
            },
        }
    }
    out
}

/// The activity's weeks are those of a valid mask.
pub open spec fn weeks_from_mask(c: CourseView) -> bool {
    exists|m: Seq<char>| mask_ok(m) && c.weeks == #[trigger] weeks_of(m)
}

proof fn lemma_blocks_weeks(t: Seq<char>, i: int)
    ensures
        forall|k: int|
            0 <= k < blocks_from(t, i).len() && (#[trigger] blocks_from(t, i)[k]) is Some
                ==> weeks_from_mask(blocks_from(t, i)[k]->0),
    decreases t.len() - i,
{
    if 0 <= i < t.len() {
        match activity_at(t, i) {
            Some(a) => {
                if i < a.1 <= t.len() {
                    lemma_blocks_weeks(t, a.1);
                    let rest = blocks_from(t, a.1);
                    assert(blocks_from(t, i) == seq![a.0] + rest);
                    if a.0 is Some {
                        let h = header_at(t, i)->0;
                        let m = field(t, h.0[6]);
                        assert(mask_ok(m) && (a.0->0).weeks == weeks_of(m));
                    }
                    assert forall|k: int|
                        0 <= k < blocks_from(t, i).len() && (#[trigger] blocks_from(t, i)[k])
                            is Some implies weeks_from_mask(blocks_from(t, i)[k]->0) by {
                        if k > 0 {
                            assert(blocks_from(t, i)[k] == rest[k - 1]);
                        }
                    }
                } else {
                    lemma_blocks_weeks(t, i + 1);
                }
            },
            None => {
                lemma_blocks_weeks(t, i + 1);
            },
        }
    }
}

/// For every activity the parser yields, its weeks come from a valid mask,
/// and encoding them at that mask's length gives the mask back.
pub proof fn lemma_parsed_weeks_round_trip(t: Seq<char>, k: int)
    requires
        0 <= k < schedule_of(t).len(),
        schedule_of(t)[k] is Some,
    ensures
        exists|m: Seq<char>|
            mask_ok(m) && (schedule_of(t)[k]->0).weeks == #[trigger] weeks_of(m) && mask_of(
                weeks_of(m),
                m.len(),
            ) == m,
{
    lemma_blocks_weeks(t, 0);
    assert(weeks_from_mask(schedule_of(t)[k]->0));
    let m = choose|m: Seq<char>| mask_ok(m) && (schedule_of(t)[k]->0).weeks == #[trigger] weeks_of(m);
    lemma_weeks_round_trip(m);
}

} // verus!
