//! The file of settings: lines of the form `KEY=value`, read into the environment.
use crate::config::setting;
use vstd::prelude::*;

verus! {

/// The path of the file of settings below the home directory.
pub const DOTENV_PATH: &'static str = ".config/nexus-ctl/.env";

/// A variable and what it is to hold.
#[derive(Debug, PartialEq, Eq)]
pub struct Assignment {
    pub key: String,
    pub value: String,
}

/// An assignment as the contracts speak of it.
pub ghost struct AssignmentView {
    pub key: Seq<char>,
    pub value: Seq<char>,
}

impl View for Assignment {
    type V = AssignmentView;

    open spec fn view(&self) -> AssignmentView {
        AssignmentView { key: self.key@, value: self.value@ }
    }
}

/// A list of assignments as the contracts speak of it.
pub open spec fn assignments_of(list: Seq<Assignment>) -> Seq<AssignmentView> {
    Seq::new(list.len(), |i: int| list[i]@)
}

/// Whether `c` has the Unicode property `White_Space`.
pub open spec fn white_space(c: char) -> bool {
    ||| '\u{9}' <= c <= '\u{d}'
    ||| c == ' '
    ||| c == '\u{85}'
    ||| c == '\u{a0}'
    ||| c == '\u{1680}'
    ||| '\u{2000}' <= c <= '\u{200a}'
    ||| c == '\u{2028}'
    ||| c == '\u{2029}'
    ||| c == '\u{202f}'
    ||| c == '\u{205f}'
    ||| c == '\u{3000}'
}

/// `s` without the white space that it begins with.
pub open spec fn trimmed_start(s: Seq<char>) -> Seq<char>
    decreases s.len(),
{
    if s.len() > 0 && white_space(s[0]) {
        trimmed_start(s.drop_first())
    } else {
        s
    }
}

/// `s` without the white space that it ends with.
pub open spec fn trimmed_end(s: Seq<char>) -> Seq<char>
    decreases s.len(),
{
    if s.len() > 0 && white_space(s.last()) {
        trimmed_end(s.drop_last())
    } else {
        s
    }
}

/// `s` without the white space at both ends.
pub open spec fn trimmed(s: Seq<char>) -> Seq<char> {
    trimmed_end(trimmed_start(s))
}

/// The place of the first `c` in `s`; the length of `s` where there is none.
pub open spec fn first_of(s: Seq<char>, c: char) -> nat
    decreases s.len(),
{
    if s.len() == 0 || s[0] == c {
        0
    } else {
        1 + first_of(s.drop_first(), c)
    }
}

/// A value without the pair of quotes around it, if there is one.
pub open spec fn unquoted(value: Seq<char>) -> Seq<char> {
    if value.len() >= 2 && value[0] == value.last() && (value[0] == '"' || value[0] == '\'') {
        value.subrange(1, value.len() - 1)
    } else {
        value
    }
}

/// The assignment that a line makes. Blank lines, lines that begin with `#` and lines without `=`
/// make none.
pub open spec fn line_assignment(line: Seq<char>) -> Option<AssignmentView> {
    let text = trimmed(line);
    let at = first_of(text, '=');
    if text.len() == 0 || text[0] == '#' || at == text.len() {
        None
    } else {
        Some(
            AssignmentView {
                key: trimmed(text.take(at as int)),
                value: unquoted(trimmed(text.skip(at as int + 1))),
            },
        )
    }
}

/// The assignments that a line makes, as a list of one or none.
pub open spec fn line_assignments(line: Seq<char>) -> Seq<AssignmentView> {
    match line_assignment(line) {
        Some(assignment) => seq![assignment],
        None => Seq::empty(),
    }
}

/// The assignments that a file makes, in the order of its lines. A line feed ends a line.
pub open spec fn file_assignments(contents: Seq<char>) -> Seq<AssignmentView>
    decreases contents.len(),
{
    let at = first_of(contents, '\n');
    if at >= contents.len() {
        line_assignments(contents)
    } else {
        line_assignments(contents.take(at as int)) + file_assignments(contents.skip(at as int + 1))
    }
}

/// `first_of` is the place of a `c` before which there is none.
proof fn lemma_first_of(s: Seq<char>, c: char)
    ensures
        first_of(s, c) <= s.len(),
        first_of(s, c) < s.len() ==> s[first_of(s, c) as int] == c,
        forall|i: int| 0 <= i < first_of(s, c) ==> s[i] != c,
    decreases s.len(),
{
    if s.len() > 0 && s[0] != c {
        let rest = s.drop_first();
        lemma_first_of(rest, c);
        assert forall|i: int| 0 <= i < first_of(s, c) implies s[i] != c by {
            if i > 0 {
                assert(s[i] == rest[i - 1]);
            }
        }
    }
}

/// A place of a `c` before which there is none is `first_of`.
proof fn lemma_first_of_is(s: Seq<char>, c: char, at: int)
    requires
        0 <= at <= s.len(),
        at < s.len() ==> s[at] == c,
        forall|i: int| 0 <= i < at ==> s[i] != c,
    ensures
        first_of(s, c) == at,
{
    lemma_first_of(s, c);
    let found = first_of(s, c) as int;
    if found < at {
        assert(s[found] != c);
    } else if at < found {
        assert(s[at] != c);
    }
}

/// Tells whether `c` has the Unicode property `White_Space`.
pub fn is_white_space(c: char) -> (r: bool)
    ensures
        r == white_space(c),
{
    ('\u{9}' <= c && c <= '\u{d}') || c == ' ' || c == '\u{85}' || c == '\u{a0}' || c == '\u{1680}'
        || ('\u{2000}' <= c && c <= '\u{200a}') || c == '\u{2028}' || c == '\u{2029}' || c
        == '\u{202f}' || c == '\u{205f}' || c == '\u{3000}'
}

/// Lists the characters of `s`.
fn chars_of(s: &str) -> (r: Vec<char>)
    ensures
        r@ == s@,
{
    let mut out: Vec<char> = Vec::new();
    for c in it: s.chars()
        invariant
            it.seq() == s@,
            out@ == s@.take(it.index()),
    {
        out.push(c);
        assert(out@ =~= s@.take(it.index() + 1));
    }
    assert(out@ =~= s@);
    out
}

/// Writes the characters from `lo` to `hi`.
fn text_of(chars: &Vec<char>, lo: usize, hi: usize) -> (r: String)
    requires
        lo <= hi <= chars@.len(),
    ensures
        r@ == chars@.subrange(lo as int, hi as int),
{
    let mut out = String::new();
    for i in lo..hi
        invariant
            lo <= hi <= chars@.len(),
            out@ == chars@.subrange(lo as int, i as int),
    {
        out.push(chars[i]);
        assert(out@ =~= chars@.subrange(lo as int, i + 1));
    }
    out
}

/// Narrows the range from `lo` to `hi` by the white space at both its ends.
fn trim(chars: &Vec<char>, lo: usize, hi: usize) -> (r: (usize, usize))
    requires
        lo <= hi <= chars@.len(),
    ensures
        lo <= r.0 <= r.1 <= hi,
        chars@.subrange(r.0 as int, r.1 as int) == trimmed(chars@.subrange(lo as int, hi as int)),
{
    let mut a: usize = lo;
    while a < hi && is_white_space(chars[a])
        invariant
            lo <= a <= hi <= chars@.len(),
            trimmed_start(chars@.subrange(lo as int, hi as int)) == trimmed_start(
                chars@.subrange(a as int, hi as int),
            ),
        decreases hi - a,
    {
        assert(chars@.subrange(a as int, hi as int).drop_first() =~= chars@.subrange(
            a + 1,
            hi as int,
        ));
        a = a + 1;
    }
    let mut b: usize = hi;
    while a < b && is_white_space(chars[b - 1])
        invariant
            a <= b <= hi <= chars@.len(),
            trimmed_end(chars@.subrange(a as int, hi as int)) == trimmed_end(
                chars@.subrange(a as int, b as int),
            ),
        decreases b - a,
    {
        assert(chars@.subrange(a as int, b as int).drop_last() =~= chars@.subrange(
            a as int,
            b - 1,
        ));
        b = b - 1;
    }
    (a, b)
}

/// Finds the first `c` from `lo` to `hi`; `hi` where there is none.
fn find(chars: &Vec<char>, lo: usize, hi: usize, c: char) -> (r: usize)
    requires
        lo <= hi <= chars@.len(),
    ensures
        lo <= r <= hi,
        r - lo == first_of(chars@.subrange(lo as int, hi as int), c),
{
    let mut at: usize = lo;
    while at < hi && chars[at] != c
        invariant
            lo <= at <= hi <= chars@.len(),
            forall|i: int| lo <= i < at ==> chars@[i] != c,
        decreases hi - at,
    {
        at = at + 1;
    }
    proof {
        lemma_first_of_is(chars@.subrange(lo as int, hi as int), c, at - lo);
    }
    at
}

/// Reads the assignment of the line from `lo` to `hi`.
fn parse_line(chars: &Vec<char>, lo: usize, hi: usize) -> (r: Option<Assignment>)
    requires
        lo <= hi <= chars@.len(),
    ensures
        r is Some <==> line_assignment(chars@.subrange(lo as int, hi as int)) is Some,
        r matches Some(a) ==> line_assignment(chars@.subrange(lo as int, hi as int)) == Some(a@),
{
    let (lo, hi) = trim(chars, lo, hi);
    let ghost text = chars@.subrange(lo as int, hi as int);
    if lo == hi || chars[lo] == '#' {
        return None;
    }
    let at: usize = find(chars, lo, hi, '=');
    if at == hi {
        return None;
    }
    let (key_lo, key_hi) = trim(chars, lo, at);
    let (value_lo, value_hi) = trim(chars, at + 1, hi);
    proof {
        assert(chars@.subrange(lo as int, at as int) =~= text.take(at - lo));
        assert(chars@.subrange(at + 1, hi as int) =~= text.skip(at - lo + 1));
    }
    let ghost value = chars@.subrange(value_lo as int, value_hi as int);
    let key = text_of(chars, key_lo, key_hi);
    if value_hi - value_lo >= 2 && chars[value_lo] == chars[value_hi - 1] && (chars[value_lo] == '"'
        || chars[value_lo] == '\'') {
        assert(chars@.subrange(value_lo + 1, value_hi - 1) =~= unquoted(value));
        Some(Assignment { key, value: text_of(chars, value_lo + 1, value_hi - 1) })
    } else {
        Some(Assignment { key, value: text_of(chars, value_lo, value_hi) })
    }
}

/// Reads the assignments of a file, in the order of its lines.
pub fn parse_dotenv(contents: &str) -> (r: Vec<Assignment>)
    ensures
        assignments_of(r@) == file_assignments(contents@),
{
    let chars = chars_of(contents);
    let n: usize = chars.len();
    let mut out: Vec<Assignment> = Vec::new();
    let mut lo: usize = 0;
    assert(chars@.skip(0) =~= chars@);
    assert(assignments_of(out@) =~= Seq::empty());
    loop
        invariant_except_break
            n == chars@.len(),
            lo <= n,
            chars@ == contents@,
            file_assignments(contents@) == assignments_of(out@) + file_assignments(
                chars@.skip(lo as int),
            ),
        ensures
            assignments_of(out@) == file_assignments(contents@),
        decreases n - lo,
    {
        let hi: usize = find(&chars, lo, n, '\n');
        let ghost before = out@;
        let ghost line = chars@.subrange(lo as int, hi as int);
        let ghost rest = chars@.skip(lo as int);
        proof {
            assert(chars@.subrange(lo as int, n as int) =~= rest);
            assert(rest.take(hi - lo) =~= line);
        }
        if let Some(assignment) = parse_line(&chars, lo, hi) {
            out.push(assignment);
        }
        assert(assignments_of(out@) =~= assignments_of(before) + line_assignments(line));
        if hi == n {
            assert(rest =~= line);
            break ;
        }
        assert(rest.skip(hi - lo + 1) =~= chars@.skip(hi + 1));
        assert(file_assignments(contents@) =~= assignments_of(out@) + file_assignments(
            chars@.skip(hi + 1),
        ));
        lo = hi + 1;
    }
    out
}

/// The environment after one assignment: a variable that is set keeps what it holds.
pub open spec fn kept_or_set(
    environment: Map<Seq<char>, Seq<char>>,
    assignment: AssignmentView,
) -> Map<Seq<char>, Seq<char>> {
    if environment.contains_key(assignment.key) {
        environment
    } else {
        environment.insert(assignment.key, assignment.value)
    }
}

/// The environment after the assignments of a file, one after the other.
pub open spec fn loaded(
    environment: Map<Seq<char>, Seq<char>>,
    assignments: Seq<AssignmentView>,
) -> Map<Seq<char>, Seq<char>>
    decreases assignments.len(),
{
    if assignments.len() == 0 {
        environment
    } else {
        kept_or_set(loaded(environment, assignments.drop_last()), assignments.last())
    }
}

/// The assignment to carry out, given whether its variable is set already: none, if it is.
pub fn wanted(assignment: Assignment, present: bool) -> (r: Option<Assignment>)
    ensures
        r == if present {
            None
        } else {
            Some(assignment)
        },
        forall|environment: Map<Seq<char>, Seq<char>>|
            environment.contains_key(assignment@.key) == present
                ==> #[trigger] kept_or_set(environment, assignment@) == match r {
                Some(a) => environment.insert(a@.key, a@.value),
                None => environment,
            },
{
    if present {
        None
    } else {
        Some(assignment)
    }
}

/// Whether one of `assignments` sets `key`.
pub open spec fn names_key(assignments: Seq<AssignmentView>, key: Seq<char>) -> bool {
    exists|i: int| 0 <= i < assignments.len() && (#[trigger] assignments[i]).key == key
}

/// The assignments to carry out, in order: of each variable that is not set already, the first.
pub open spec fn first_unset(
    assignments: Seq<AssignmentView>,
    present: Seq<bool>,
) -> Seq<AssignmentView>
    decreases assignments.len(),
{
    if assignments.len() == 0 {
        Seq::empty()
    } else {
        let earlier = first_unset(assignments.drop_last(), present);
        let last = assignments.last();
        if present[assignments.len() - 1] || names_key(earlier, last.key) {
            earlier
        } else {
            earlier.push(last)
        }
    }
}

/// The environment after `assignments` were carried out, one after the other.
pub open spec fn inserted(
    environment: Map<Seq<char>, Seq<char>>,
    assignments: Seq<AssignmentView>,
) -> Map<Seq<char>, Seq<char>>
    decreases assignments.len(),
{
    if assignments.len() == 0 {
        environment
    } else {
        inserted(environment, assignments.drop_last()).insert(
            assignments.last().key,
            assignments.last().value,
        )
    }
}

/// Whether `present` tells of each assignment if `environment` sets its variable.
pub open spec fn agrees(
    environment: Map<Seq<char>, Seq<char>>,
    assignments: Seq<AssignmentView>,
    present: Seq<bool>,
) -> bool {
    &&& present.len() == assignments.len()
    &&& forall|i: int|
        0 <= i < assignments.len() ==> environment.contains_key((#[trigger] assignments[i]).key)
            == present[i]
}

/// What is set after `assignments` were carried out is what was set before and what they name.
proof fn lemma_inserted_keys(
    environment: Map<Seq<char>, Seq<char>>,
    assignments: Seq<AssignmentView>,
    key: Seq<char>,
)
    ensures
        inserted(environment, assignments).contains_key(key) <==> environment.contains_key(key)
            || names_key(assignments, key),
    decreases assignments.len(),
{
    if assignments.len() > 0 {
        let earlier = assignments.drop_last();
        lemma_inserted_keys(environment, earlier, key);
        lemma_names_key_push(earlier, assignments.last(), key);
        assert(earlier.push(assignments.last()) =~= assignments);
    }
}

proof fn lemma_names_key_push(
    assignments: Seq<AssignmentView>,
    last: AssignmentView,
    key: Seq<char>,
)
    ensures
        names_key(assignments.push(last), key) <==> names_key(assignments, key) || last.key == key,
{
    let longer = assignments.push(last);
    if names_key(assignments, key) {
        let i = choose|i: int| 0 <= i < assignments.len() && (#[trigger] assignments[i]).key == key;
        assert(longer[i].key == key);
    }
    if last.key == key {
        assert(longer[assignments.len() as int].key == key);
    }
    if names_key(longer, key) && last.key != key {
        let i = choose|i: int| 0 <= i < longer.len() && (#[trigger] longer[i]).key == key;
        assert(assignments[i].key == key);
    }
}

/// To carry out the first assignment of each variable that is not set is to load them all.
proof fn lemma_first_unset_loads(
    environment: Map<Seq<char>, Seq<char>>,
    assignments: Seq<AssignmentView>,
    present: Seq<bool>,
    n: int,
)
    requires
        agrees(environment, assignments, present),
        0 <= n <= assignments.len(),
    ensures
        inserted(environment, first_unset(assignments.take(n), present)) == loaded(
            environment,
            assignments.take(n),
        ),
    decreases n,
{
    if n > 0 {
        let last = assignments[n - 1];
        let chosen = first_unset(assignments.take(n - 1), present);
        lemma_first_unset_loads(environment, assignments, present, n - 1);
        lemma_inserted_keys(environment, chosen, last.key);
        assert(assignments.take(n).drop_last() =~= assignments.take(n - 1));
        assert(chosen.push(last).drop_last() =~= chosen);
        assert(environment.contains_key(assignments[n - 1].key) == present[n - 1]);
    }
}

/// Lists the assignments to carry out, given of each whether its variable is set before any of them
/// is carried out. To carry them out in order loads the whole list: what is set stays, and of two
/// assignments to one variable the first counts.
pub fn to_set(assignments: Vec<Assignment>, present: &Vec<bool>) -> (r: Vec<Assignment>)
    requires
        present@.len() == assignments@.len(),
    ensures
        assignments_of(r@) == first_unset(assignments_of(assignments@), present@),
        forall|environment: Map<Seq<char>, Seq<char>>|
            #[trigger] agrees(environment, assignments_of(assignments@), present@) ==> inserted(
                environment,
                assignments_of(r@),
            ) == loaded(environment, assignments_of(assignments@)),
{
    let ghost all = assignments_of(assignments@);
    let mut out: Vec<Assignment> = Vec::new();
    let n: usize = present.len();
    let mut at: usize = 0;
    assert(assignments_of(out@) =~= first_unset(all.take(0), present@));
    for assignment in it: assignments
        invariant
            it.seq() == assignments@,
            at == it.index(),
            all == assignments_of(assignments@),
            n == present@.len() == assignments@.len(),
            assignments_of(out@) == first_unset(all.take(at as int), present@),
    {
        let ghost before = assignments_of(out@);
        let named: bool = is_named(&out, &assignment.key);
        proof {
            assert(all.take(at + 1).drop_last() =~= all.take(at as int));
            assert(all.take(at + 1).last() == assignment@);
        }
        if let Some(chosen) = wanted(assignment, present[at] || named) {
            out.push(chosen);
            assert(assignments_of(out@) =~= before.push(chosen@));
        }
        at = at + 1;
    }
    proof {
        assert(all.take(all.len() as int) =~= all);
        assert forall|environment: Map<Seq<char>, Seq<char>>|
            #[trigger] agrees(environment, all, present@) implies inserted(
            environment,
            assignments_of(out@),
        ) == loaded(environment, all) by {
            lemma_first_unset_loads(environment, all, present@, all.len() as int);
        }
    }
    out
}

/// Tells whether one of `assignments` sets `key`.
fn is_named(assignments: &Vec<Assignment>, key: &String) -> (r: bool)
    ensures
        r == names_key(assignments_of(assignments@), key@),
{
    let ghost list = assignments_of(assignments@);
    for i in 0..assignments.len()
        invariant
            list == assignments_of(assignments@),
            forall|j: int| 0 <= j < i ==> (#[trigger] list[j]).key != key@,
    {
        if assignments[i].key == *key {
            assert(list[i as int].key == key@);
            return true;
        }
    }
    false
}

/// Where every variable of a file is set, to load the file changes nothing.
proof fn lemma_loaded_same(
    environment: Map<Seq<char>, Seq<char>>,
    assignments: Seq<AssignmentView>,
    n: int,
)
    requires
        0 <= n <= assignments.len(),
        forall|i: int|
            0 <= i < assignments.len() ==> environment.contains_key(
                (#[trigger] assignments[i]).key,
            ),
    ensures
        loaded(environment, assignments.take(n)) == environment,
    decreases n,
{
    if n > 0 {
        lemma_loaded_same(environment, assignments, n - 1);
        assert(assignments.take(n).drop_last() =~= assignments.take(n - 1));
        assert(environment.contains_key(assignments[n - 1].key));
    }
}

/// Every variable that a file names is set once the file is loaded.
pub proof fn law_named_is_set(
    environment: Map<Seq<char>, Seq<char>>,
    assignments: Seq<AssignmentView>,
    at: int,
)
    requires
        0 <= at < assignments.len(),
    ensures
        loaded(environment, assignments).contains_key(assignments[at].key),
    decreases assignments.len(),
{
    if at < assignments.len() - 1 {
        law_named_is_set(environment, assignments.drop_last(), at);
    }
}

/// To load a file a second time changes nothing.
pub proof fn law_second_loading_changes_nothing(
    environment: Map<Seq<char>, Seq<char>>,
    assignments: Seq<AssignmentView>,
)
    ensures
        loaded(loaded(environment, assignments), assignments) == loaded(environment, assignments),
{
    let once = loaded(environment, assignments);
    assert forall|i: int| 0 <= i < assignments.len() implies once.contains_key(
        (#[trigger] assignments[i]).key,
    ) by {
        law_named_is_set(environment, assignments, i);
    }
    lemma_loaded_same(once, assignments, assignments.len() as int);
    assert(assignments.take(assignments.len() as int) =~= assignments);
}

/// A variable of the environment keeps what it holds, whatever the file says.
pub proof fn law_environment_wins(
    environment: Map<Seq<char>, Seq<char>>,
    assignments: Seq<AssignmentView>,
    key: Seq<char>,
)
    requires
        environment.contains_key(key),
    ensures
        loaded(environment, assignments).contains_key(key),
        loaded(environment, assignments)[key] == environment[key],
    decreases assignments.len(),
{
    if assignments.len() > 0 {
        law_environment_wins(environment, assignments.drop_last(), key);
    }
}

/// A variable that neither the environment nor the file sets stays unset.
pub proof fn law_unnamed_stays_unset(
    environment: Map<Seq<char>, Seq<char>>,
    assignments: Seq<AssignmentView>,
    key: Seq<char>,
)
    requires
        !environment.contains_key(key),
        forall|i: int| 0 <= i < assignments.len() ==> (#[trigger] assignments[i]).key != key,
    ensures
        !loaded(environment, assignments).contains_key(key),
    decreases assignments.len(),
{
    if assignments.len() > 0 {
        let earlier = assignments.drop_last();
        assert forall|i: int| 0 <= i < earlier.len() implies (#[trigger] earlier[i]).key != key by {
            assert(earlier[i] == assignments[i]);
        }
        law_unnamed_stays_unset(environment, earlier, key);
        assert(assignments[assignments.len() - 1].key != key);
    }
}

/// Of several assignments to a variable that the environment does not set, the first counts.
pub proof fn law_first_assignment_wins(
    environment: Map<Seq<char>, Seq<char>>,
    assignments: Seq<AssignmentView>,
    at: int,
)
    requires
        0 <= at < assignments.len(),
        !environment.contains_key(assignments[at].key),
        forall|i: int| 0 <= i < at ==> (#[trigger] assignments[i]).key != assignments[at].key,
    ensures
        loaded(environment, assignments).contains_key(assignments[at].key),
        loaded(environment, assignments)[assignments[at].key] == assignments[at].value,
    decreases assignments.len(),
{
    let earlier = assignments.drop_last();
    assert forall|i: int| 0 <= i < earlier.len() implies earlier[i] == assignments[i] by {}
    if at == assignments.len() - 1 {
        law_unnamed_stays_unset(environment, earlier, assignments[at].key);
    } else {
        law_first_assignment_wins(environment, earlier, at);
    }
}

/// What a variable of the environment holds, if it is set.
pub open spec fn held(environment: Map<Seq<char>, Seq<char>>, key: Seq<char>) -> Option<Seq<char>> {
    if environment.contains_key(key) {
        Some(environment[key])
    } else {
        None
    }
}

/// A setting is what the environment says, else what the first line of the file that names it says,
/// else its default.
pub proof fn law_order_of_settings(
    environment: Map<Seq<char>, Seq<char>>,
    assignments: Seq<AssignmentView>,
    key: Seq<char>,
    default: Seq<char>,
)
    ensures
        environment.contains_key(key) ==> setting(
            held(loaded(environment, assignments), key),
            default,
        ) == environment[key],
        forall|at: int|
            !environment.contains_key(key) && 0 <= at < assignments.len() && (
            #[trigger] assignments[at]).key == key && (forall|i: int|
                0 <= i < at ==> (#[trigger] assignments[i]).key != key) ==> setting(
                held(loaded(environment, assignments), key),
                default,
            ) == assignments[at].value,
        !environment.contains_key(key) && (forall|i: int|
            0 <= i < assignments.len() ==> (#[trigger] assignments[i]).key != key) ==> setting(
            held(loaded(environment, assignments), key),
            default,
        ) == default,
{
    if environment.contains_key(key) {
        law_environment_wins(environment, assignments, key);
    } else {
        assert forall|at: int|
            0 <= at < assignments.len() && (#[trigger] assignments[at]).key == key && (forall|i: int|
                0 <= i < at ==> (#[trigger] assignments[i]).key != key) implies setting(
            held(loaded(environment, assignments), key),
            default,
        ) == assignments[at].value by {
            law_first_assignment_wins(environment, assignments, at);
        }
        if forall|i: int| 0 <= i < assignments.len() ==> (#[trigger] assignments[i]).key != key {
            law_unnamed_stays_unset(environment, assignments, key);
        }
    }
}

/// A text whose ends are no white space is what trimming leaves of it.
proof fn lemma_trimmed_same(s: Seq<char>)
    requires
        s.len() > 0 ==> !white_space(s[0]) && !white_space(s.last()),
    ensures
        trimmed(s) == s,
{
}

/// What trimming leaves does not begin or end with white space.
pub proof fn law_trimmed_ends(s: Seq<char>)
    ensures
        trimmed(s).len() > 0 ==> !white_space(trimmed(s)[0]) && !white_space(trimmed(s).last()),
{
    lemma_trimmed_start_begins(s);
    lemma_trimmed_end_ends(trimmed_start(s));
}

proof fn lemma_trimmed_start_begins(s: Seq<char>)
    ensures
        trimmed_start(s).len() > 0 ==> !white_space(trimmed_start(s)[0]),
    decreases s.len(),
{
    if s.len() > 0 && white_space(s[0]) {
        lemma_trimmed_start_begins(s.drop_first());
    }
}

proof fn lemma_trimmed_end_ends(s: Seq<char>)
    ensures
        trimmed_end(s).len() > 0 ==> !white_space(trimmed_end(s).last()) && trimmed_end(s)[0]
            == s[0],
    decreases s.len(),
{
    if s.len() > 0 && white_space(s.last()) {
        lemma_trimmed_end_ends(s.drop_last());
    }
}

/// White space behind a text does not change what trimming leaves.
proof fn lemma_trimmed_push(s: Seq<char>, c: char)
    requires
        white_space(c),
    ensures
        trimmed(s.push(c)) == trimmed(s),
    decreases s.len(),
{
    if s.len() == 0 {
        assert(s.push(c).drop_first() =~= s);
        assert(trimmed_start(s.push(c)) == trimmed_start(s.push(c).drop_first()));
    } else if white_space(s[0]) {
        assert(s.push(c).drop_first() =~= s.drop_first().push(c));
        lemma_trimmed_push(s.drop_first(), c);
    } else {
        assert(s.push(c).drop_last() =~= s);
    }
}

/// A line that a carriage return ends makes the same assignment as the line without it.
pub proof fn law_carriage_return_is_ignored(line: Seq<char>)
    ensures
        line_assignment(line.push('\r')) == line_assignment(line),
{
    lemma_trimmed_push(line, '\r');
}

/// White space around a line does not change the assignment that it makes.
pub proof fn law_outer_white_space_is_ignored(line: Seq<char>)
    ensures
        line_assignment(trimmed(line)) == line_assignment(line),
{
    law_trimmed_ends(line);
    lemma_trimmed_same(trimmed(line));
}

/// A value that is written between quotes is read back as it is, white space at its ends and
/// quotes inside it too.
pub proof fn law_quoted_value_is_read_back(key: Seq<char>, value: Seq<char>, quote: char)
    requires
        quote == '"' || quote == '\'',
        trimmed(key) == key,
        key.len() > 0 ==> key[0] != '#',
        forall|i: int| 0 <= i < key.len() ==> key[i] != '=',
    ensures
        line_assignment(key + seq!['='] + seq![quote] + value + seq![quote]) == Some(
            AssignmentView { key, value },
        ),
{
    let line = key + seq!['='] + seq![quote] + value + seq![quote];
    law_trimmed_ends(key);
    assert(line.last() == quote);
    assert(line[0] == if key.len() > 0 {
        key[0]
    } else {
        '='
    });
    lemma_trimmed_same(line);
    lemma_first_of_is(line, '=', key.len() as int);
    assert(line.take(key.len() as int) =~= key);
    let quoted = seq![quote] + value + seq![quote];
    assert(line.skip(key.len() as int + 1) =~= quoted);
    lemma_trimmed_same(quoted);
    assert(quoted.subrange(1, quoted.len() - 1) =~= value);
}

/// The line feed behind the last line of a file is optional.
pub proof fn law_last_line_feed_is_optional(contents: Seq<char>)
    ensures
        file_assignments(contents.push('\n')) == file_assignments(contents),
    decreases contents.len(),
{
    let longer = contents.push('\n');
    let at = first_of(contents, '\n') as int;
    lemma_first_of(contents, '\n');
    lemma_first_of_is(longer, '\n', at);
    assert(longer.take(at) =~= contents.take(at));
    if at < contents.len() {
        law_last_line_feed_is_optional(contents.skip(at + 1));
        assert(longer.skip(at + 1) =~= contents.skip(at + 1).push('\n'));
    } else {
        assert(contents.take(at) =~= contents);
        assert(longer.skip(at + 1) =~= Seq::<char>::empty());
        assert(first_of(Seq::<char>::empty(), '\n') == 0);
        assert(file_assignments(Seq::<char>::empty()) =~= Seq::empty());
        assert(file_assignments(longer) =~= file_assignments(contents));
    }
}

/// Whether `s` is white space throughout.
pub open spec fn all_white(s: Seq<char>) -> bool {
    forall|i: int| 0 <= i < s.len() ==> white_space(#[trigger] s[i])
}

/// Whether `s` neither begins nor ends with white space.
pub open spec fn bare(s: Seq<char>) -> bool {
    s.len() > 0 ==> !white_space(s[0]) && !white_space(s.last())
}

proof fn lemma_trimmed_start_of(a: Seq<char>, core: Seq<char>)
    requires
        all_white(a),
        core.len() > 0 ==> !white_space(core[0]),
    ensures
        trimmed_start(a + core) == core,
    decreases a.len(),
{
    if a.len() > 0 {
        assert((a + core)[0] == a[0]);
        assert((a + core).drop_first() =~= a.drop_first() + core);
        assert forall|i: int| 0 <= i < a.drop_first().len() implies white_space(
            #[trigger] a.drop_first()[i],
        ) by {
            assert(a.drop_first()[i] == a[i + 1]);
        }
        lemma_trimmed_start_of(a.drop_first(), core);
    } else {
        assert(a + core =~= core);
    }
}

proof fn lemma_trimmed_end_of(core: Seq<char>, b: Seq<char>)
    requires
        all_white(b),
        core.len() > 0 ==> !white_space(core.last()),
    ensures
        trimmed_end(core + b) == core,
    decreases b.len(),
{
    if b.len() > 0 {
        assert((core + b).last() == b.last());
        assert((core + b).drop_last() =~= core + b.drop_last());
        assert(white_space(b[b.len() - 1]));
        lemma_trimmed_end_of(core, b.drop_last());
    } else {
        assert(core + b =~= core);
    }
}

/// Trimming takes away the white space at both ends and nothing else.
pub proof fn law_trimmed_leaves_the_core(a: Seq<char>, core: Seq<char>, b: Seq<char>)
    requires
        all_white(a),
        all_white(b),
        bare(core),
    ensures
        trimmed(a + core + b) == core,
{
    assert(a + core + b =~= a + (core + b));
    if core.len() == 0 {
        let whole = a + core + b;
        assert forall|i: int| 0 <= i < whole.len() implies white_space(#[trigger] whole[i]) by {
            if i >= a.len() {
                assert(whole[i] == b[i - a.len()]);
            } else {
                assert(whole[i] == a[i]);
            }
        }
        lemma_trimmed_start_of(whole, Seq::empty());
        assert(whole + Seq::<char>::empty() =~= whole);
        assert(core =~= Seq::<char>::empty());
    } else {
        lemma_trimmed_start_of(a, core + b);
        lemma_trimmed_end_of(core, b);
    }
}

/// What a line assigns that holds a key, `=` and a value, with white space around each: the key,
/// and the value as `unquoted` leaves it.
proof fn lemma_line_with_value(
    a: Seq<char>,
    key: Seq<char>,
    b: Seq<char>,
    c: Seq<char>,
    value: Seq<char>,
    d: Seq<char>,
)
    requires
        all_white(a),
        all_white(b),
        all_white(c),
        all_white(d),
        bare(key),
        bare(value),
        key.len() > 0 ==> key[0] != '#',
        forall|i: int| 0 <= i < key.len() ==> key[i] != '=',
    ensures
        line_assignment(a + key + b + seq!['='] + c + value + d) == Some(
            AssignmentView { key, value: unquoted(value) },
        ),
{
    let none = Seq::<char>::empty();
    let line = a + key + b + seq!['='] + c + value + d;
    let before = if key.len() > 0 {
        key + b
    } else {
        none
    };
    let behind = if value.len() > 0 {
        c + value
    } else {
        none
    };
    let left = if key.len() > 0 {
        a
    } else {
        a + b
    };
    let right = if value.len() > 0 {
        d
    } else {
        c + d
    };
    let text = before + seq!['='] + behind;
    assert(line =~= left + text + right);
    assert(all_white(left)) by {
        assert forall|i: int| 0 <= i < left.len() implies white_space(#[trigger] left[i]) by {
            if i >= a.len() {
                assert(left[i] == b[i - a.len()]);
            } else {
                assert(left[i] == a[i]);
            }
        }
    }
    assert(all_white(right)) by {
        assert forall|i: int| 0 <= i < right.len() implies white_space(#[trigger] right[i]) by {
            if value.len() == 0 {
                if i >= c.len() {
                    assert(right[i] == d[i - c.len()]);
                } else {
                    assert(right[i] == c[i]);
                }
            }
        }
    }
    assert(text[0] == if key.len() > 0 {
        key[0]
    } else {
        '='
    });
    assert(text.last() == if value.len() > 0 {
        value.last()
    } else {
        '='
    });
    law_trimmed_leaves_the_core(left, text, right);
    assert forall|i: int| 0 <= i < before.len() implies text[i] != '=' by {
        if i >= key.len() {
            assert(text[i] == b[i - key.len()]);
        } else {
            assert(text[i] == key[i]);
        }
    }
    lemma_first_of_is(text, '=', before.len() as int);
    assert(text.take(before.len() as int) =~= before);
    assert(text.skip(before.len() as int + 1) =~= behind);
    assert(before =~= none + key + (if key.len() > 0 {
        b
    } else {
        none
    }));
    law_trimmed_leaves_the_core(
        none,
        key,
        if key.len() > 0 {
            b
        } else {
            none
        },
    );
    assert(behind =~= (if value.len() > 0 {
        c
    } else {
        none
    }) + value + none);
    law_trimmed_leaves_the_core(
        if value.len() > 0 {
            c
        } else {
            none
        },
        value,
        none,
    );
}

/// A value that is written without quotes around it is read back as it is, whatever characters it
/// holds; white space around the key and the value is left out.
pub proof fn law_plain_value_is_read_back(
    a: Seq<char>,
    key: Seq<char>,
    b: Seq<char>,
    c: Seq<char>,
    value: Seq<char>,
    d: Seq<char>,
)
    requires
        all_white(a),
        all_white(b),
        all_white(c),
        all_white(d),
        bare(key),
        bare(value),
        key.len() > 0 ==> key[0] != '#',
        forall|i: int| 0 <= i < key.len() ==> key[i] != '=',
        !(value.len() >= 2 && value[0] == value.last() && (value[0] == '"' || value[0] == '\'')),
    ensures
        line_assignment(a + key + b + seq!['='] + c + value + d) == Some(
            AssignmentView { key, value },
        ),
        line_assignment(key + seq!['='] + value) == Some(AssignmentView { key, value }),
{
    let none = Seq::<char>::empty();
    lemma_line_with_value(a, key, b, c, value, d);
    lemma_line_with_value(none, key, none, none, value, none);
    assert(none + key + none + seq!['='] + none + value + none =~= key + seq!['='] + value);
}

/// A value that is written between quotes is read back as it is; white space around the key and the
/// quotes is left out.
pub proof fn law_quoted_value_with_white_space_is_read_back(
    a: Seq<char>,
    key: Seq<char>,
    b: Seq<char>,
    c: Seq<char>,
    value: Seq<char>,
    quote: char,
    d: Seq<char>,
)
    requires
        all_white(a),
        all_white(b),
        all_white(c),
        all_white(d),
        bare(key),
        quote == '"' || quote == '\'',
        key.len() > 0 ==> key[0] != '#',
        forall|i: int| 0 <= i < key.len() ==> key[i] != '=',
    ensures
        line_assignment(
            a + key + b + seq!['='] + c + (seq![quote] + value + seq![quote]) + d,
        ) == Some(AssignmentView { key, value }),
{
    let quoted = seq![quote] + value + seq![quote];
    lemma_line_with_value(a, key, b, c, quoted, d);
    assert(quoted.subrange(1, quoted.len() - 1) =~= value);
}

proof fn lemma_trimmed_start_holds(s: Seq<char>, c: char)
    requires
        !s.contains(c),
    ensures
        !trimmed_start(s).contains(c),
    decreases s.len(),
{
    if s.len() > 0 && white_space(s[0]) {
        assert(!s.drop_first().contains(c)) by {
            if s.drop_first().contains(c) {
                let i = choose|i: int| 0 <= i < s.drop_first().len() && s.drop_first()[i] == c;
                assert(s[i + 1] == c);
            }
        }
        lemma_trimmed_start_holds(s.drop_first(), c);
    }
}

proof fn lemma_trimmed_end_holds(s: Seq<char>, c: char)
    requires
        !s.contains(c),
    ensures
        !trimmed_end(s).contains(c),
    decreases s.len(),
{
    if s.len() > 0 && white_space(s.last()) {
        assert(!s.drop_last().contains(c)) by {
            if s.drop_last().contains(c) {
                let i = choose|i: int| 0 <= i < s.drop_last().len() && s.drop_last()[i] == c;
                assert(s[i] == c);
            }
        }
        lemma_trimmed_end_holds(s.drop_last(), c);
    }
}

/// Lines that are blank, that begin with `#` or that hold no `=` assign nothing.
pub proof fn law_other_lines_assign_nothing(white: Seq<char>, rest: Seq<char>, line: Seq<char>)
    requires
        all_white(white),
        !line.contains('='),
    ensures
        line_assignment(white) is None,
        line_assignment(white + seq!['#'] + rest) is None,
        line_assignment(line) is None,
{
    let none = Seq::<char>::empty();
    law_trimmed_leaves_the_core(white, none, none);
    assert(white + none + none =~= white);
    let comment = seq!['#'] + rest;
    lemma_trimmed_start_of(white, comment);
    assert(white + seq!['#'] + rest =~= white + comment);
    lemma_trimmed_end_keeps_front(comment);
    lemma_trimmed_start_holds(line, '=');
    lemma_trimmed_end_holds(trimmed_start(line), '=');
    lemma_first_of(trimmed(line), '=');
    let at = first_of(trimmed(line), '=') as int;
    if at < trimmed(line).len() {
        assert(trimmed(line)[at] == '=');
    }
}

proof fn lemma_trimmed_end_keeps_front(s: Seq<char>)
    requires
        s.len() > 0,
        !white_space(s[0]),
    ensures
        trimmed_end(s).len() > 0,
        trimmed_end(s)[0] == s[0],
    decreases s.len(),
{
    if white_space(s.last()) {
        lemma_trimmed_end_keeps_front(s.drop_last());
    }
}

/// A file assigns what its lines assign, one line after the other; a line feed ends a line.
pub proof fn law_file_is_its_lines(a: Seq<char>, b: Seq<char>, line: Seq<char>)
    requires
        !line.contains('\n'),
    ensures
        file_assignments(a + seq!['\n'] + b) == file_assignments(a) + file_assignments(b),
        line_assignment(line) is None ==> file_assignments(line) == Seq::<AssignmentView>::empty(),
        line_assignment(line) matches Some(x) ==> file_assignments(line) == seq![x],
{
    lemma_file_concat(a, b);
    lemma_first_of(line, '\n');
    let at = first_of(line, '\n') as int;
    if at < line.len() {
        assert(line[at] == '\n');
    }
}

proof fn lemma_file_concat(a: Seq<char>, b: Seq<char>)
    ensures
        file_assignments(a + seq!['\n'] + b) == file_assignments(a) + file_assignments(b),
    decreases a.len(),
{
    let whole = a + seq!['\n'] + b;
    let at = first_of(a, '\n') as int;
    lemma_first_of(a, '\n');
    lemma_first_of_is(whole, '\n', at);
    assert(whole.take(at) =~= a.take(at));
    if at < a.len() {
        lemma_file_concat(a.skip(at + 1), b);
        assert(whole.skip(at + 1) =~= a.skip(at + 1) + seq!['\n'] + b);
        assert(file_assignments(whole) =~= file_assignments(a) + file_assignments(b));
    } else {
        assert(a.take(at) =~= a);
        assert(whole.skip(at + 1) =~= b);
    }
}

/// To carry out a list of assignments gives each variable that it names the value of the last
/// assignment to it, and leaves every other variable as it was.
pub proof fn law_inserted(
    environment: Map<Seq<char>, Seq<char>>,
    assignments: Seq<AssignmentView>,
    key: Seq<char>,
    at: int,
)
    ensures
        0 <= at < assignments.len() && assignments[at].key == key && (forall|i: int|
            at < i < assignments.len() ==> (#[trigger] assignments[i]).key != key) ==> held(
            inserted(environment, assignments),
            key,
        ) == Some(assignments[at].value),
        (forall|i: int| 0 <= i < assignments.len() ==> (#[trigger] assignments[i]).key != key)
            ==> held(inserted(environment, assignments), key) == held(environment, key),
    decreases assignments.len(),
{
    if assignments.len() > 0 {
        let earlier = assignments.drop_last();
        assert forall|i: int| 0 <= i < earlier.len() implies earlier[i] == assignments[i] by {}
        law_inserted(environment, earlier, key, at);
        if at < assignments.len() - 1 && (forall|i: int|
            at < i < assignments.len() ==> (#[trigger] assignments[i]).key != key) {
            assert(assignments[assignments.len() - 1].key != key);
        }
        if forall|i: int| 0 <= i < assignments.len() ==> (#[trigger] assignments[i]).key != key {
            assert(assignments[assignments.len() - 1].key != key);
        }
    }
}

/// What is to be set is set once, and was not set: every assignment that is chosen is one of the
/// list whose variable is not set already, and no two are to one variable.
pub proof fn law_chosen_are_unset_and_distinct(
    assignments: Seq<AssignmentView>,
    present: Seq<bool>,
)
    requires
        present.len() >= assignments.len(),
    ensures
        ({
            let chosen = first_unset(assignments, present);
            &&& forall|k: int|
                0 <= k < chosen.len() ==> exists|i: int|
                    0 <= i < assignments.len() && !present[i] && #[trigger] assignments[i]
                        == #[trigger] chosen[k]
            &&& forall|k: int, m: int|
                0 <= k < m < chosen.len() ==> (#[trigger] chosen[k]).key != (
                #[trigger] chosen[m]).key
        }),
    decreases assignments.len(),
{
    let chosen = first_unset(assignments, present);
    if assignments.len() > 0 {
        let shorter = assignments.drop_last();
        let earlier = first_unset(shorter, present);
        law_chosen_are_unset_and_distinct(shorter, present);
        assert forall|k: int| 0 <= k < chosen.len() implies exists|i: int|
            0 <= i < assignments.len() && !present[i] && #[trigger] assignments[i]
                == #[trigger] chosen[k] by {
            if k < earlier.len() {
                assert(chosen[k] == earlier[k]);
                let i = choose|i: int|
                    0 <= i < shorter.len() && !present[i] && #[trigger] shorter[i] == earlier[k];
                assert(assignments[i] == chosen[k]);
            } else {
                assert(assignments[assignments.len() - 1] == chosen[k]);
            }
        }
        assert forall|k: int, m: int| 0 <= k < m < chosen.len() implies (#[trigger] chosen[k]).key
            != (#[trigger] chosen[m]).key by {
            assert(chosen[k] == earlier[k]);
            if m < earlier.len() {
                assert(chosen[m] == earlier[m]);
            } else {
                assert(!names_key(earlier, chosen[m].key));
                assert(earlier[k].key != chosen[m].key);
            }
        }
    }
}

/// What `agrees` asks for: of each assignment, whether its variable is set.
pub proof fn law_agrees(
    environment: Map<Seq<char>, Seq<char>>,
    assignments: Seq<AssignmentView>,
    present: Seq<bool>,
)
    requires
        present.len() == assignments.len(),
        forall|i: int|
            0 <= i < assignments.len() ==> #[trigger] present[i] == environment.contains_key(
                assignments[i].key,
            ),
    ensures
        agrees(environment, assignments, present),
{
    assert forall|i: int| 0 <= i < assignments.len() implies environment.contains_key(
        (#[trigger] assignments[i]).key,
    ) == present[i] by {}
}

/// Assignments are seen as they are.
pub proof fn law_assignments_are_seen_as_they_are(list: Seq<Assignment>, assignment: Assignment)
    ensures
        assignment@.key == assignment.key@,
        assignment@.value == assignment.value@,
        assignments_of(list).len() == list.len(),
        forall|i: int| 0 <= i < list.len() ==> #[trigger] assignments_of(list)[i] == list[i]@,
        DOTENV_PATH@ == ".config/nexus-ctl/.env"@,
{
}

} // verus!
