//! The style-sheet parser: class-selector blocks with optional pseudo-state
//! selectors, raw `key: value` properties, and local error recovery.

use vstd::prelude::*;

use vstd::multiset::Multiset;

verus! {

/// A style-level error: a human-readable message and the offending literal.
#[derive(Debug, Clone, PartialEq, Eq)]
pub struct StyleError {
    pub error: Vec<char>,
    pub value: Vec<char>,
}

pub struct SpecStyleError {
    pub error: Seq<char>,
    pub value: Seq<char>,
}

impl View for StyleError {
    type V = SpecStyleError;

    open spec fn view(&self) -> SpecStyleError {
        SpecStyleError { error: self.error@, value: self.value@ }
    }
}

impl StyleError {
    /// An error with message `error` about the text `value`.
    pub fn new(error: &str, value: &[char]) -> (r: StyleError)
        ensures
            r@.error == error@,
            r@.value == value@,
    {
        StyleError {
            error: crate::text::str_to_chars(error),
            value: crate::text::span_to_vec(value, 0, value.len()),
        }
    }
}


/// A pseudo-state selector.
#[derive(Debug, Clone, Copy, PartialEq, Eq, PartialOrd, Ord, Structural)]
pub enum Selector {
    Active,
    Focus,
    Hover,
    Disabled,
}

/// The pseudo-selector keyword table.
pub open spec fn spec_selector(s: Seq<char>) -> Option<Selector> {
    if s == "active"@ {
        Some(Selector::Active)
    } else if s == "focus"@ {
        Some(Selector::Focus)
    } else if s == "hover"@ {
        Some(Selector::Hover)
    } else if s == "disabled"@ {
        Some(Selector::Disabled)
    } else {
        None
    }
}

impl Selector {
    /// Reads a pseudo-selector name.
    pub fn from_str(s: &[char]) -> (r: Result<Selector, StyleError>)
        ensures
            match r {
                Ok(v) => spec_selector(s@) == Some(v),
                Err(e) => spec_selector(s@) is None && e@.error == "unsupported selector"@
                    && e@.value == s@,
            },
    {
        if crate::text::chars_eq_str(s, "active") {
            Ok(Selector::Active)
        } else if crate::text::chars_eq_str(s, "focus") {
            Ok(Selector::Focus)
        } else if crate::text::chars_eq_str(s, "hover") {
            Ok(Selector::Hover)
        } else if crate::text::chars_eq_str(s, "disabled") {
            Ok(Selector::Disabled)
        } else {
            Err(StyleError::new("unsupported selector", s))
        }
    }
}

/// A class selector with an optional pseudo-state.
#[derive(Debug, Clone, PartialEq, Eq)]
pub struct ClassSelector {
    pub class: Vec<char>,
    pub selector: Option<Selector>,
}

pub struct SpecClassSelector {
    pub class: Seq<char>,
    pub selector: Option<Selector>,
}

impl View for ClassSelector {
    type V = SpecClassSelector;

    open spec fn view(&self) -> SpecClassSelector {
        SpecClassSelector { class: self.class@, selector: self.selector }
    }
}

/// One leading `.` stripped from a class name.
pub open spec fn strip_dot(s: Seq<char>) -> Seq<char> {
    if s.len() > 0 && s[0] == '.' {
        s.subrange(1, s.len() as int)
    } else {
        s
    }
}

/// Trimmed of white space.
pub open spec fn spec_trimmed(s: Seq<char>) -> Seq<char> {
    crate::text::spec_trim(s, |c: char| crate::text::is_space_char(c))
}

/// The outcome of reading one class selector: the trimmed text split at its
/// first `:`, the class with its leading dot dropped, and the pseudo-state
/// (if present) drawn from the selector table. An empty selector text, an
/// empty side of the `:`, or an unknown pseudo-selector is an error.
pub open spec fn spec_class_selector(raw: Seq<char>) -> Result<SpecClassSelector, SpecStyleError> {
    let t = spec_trimmed(raw);
    if t.len() == 0 {
        Err(SpecStyleError { error: "empty class selector"@, value: t })
    } else {
        let i = crate::text::scan_to_char(t, 0, ':');
        if i >= t.len() {
            Ok(SpecClassSelector { class: strip_dot(t), selector: None })
        } else {
            let cls = spec_trimmed(t.subrange(0, i));
            let sel = spec_trimmed(t.subrange(i + 1, t.len() as int));
            if cls.len() == 0 || sel.len() == 0 {
                Err(SpecStyleError { error: "invalid class selector"@, value: t })
            } else {
                match spec_selector(sel) {
                    Some(x) => Ok(SpecClassSelector { class: strip_dot(cls), selector: Some(x) }),
                    None => Err(SpecStyleError { error: "unsupported selector"@, value: sel }),
                }
            }
        }
    }
}

impl ClassSelector {
    /// Reads one class selector.
    pub fn from_str(raw: &[char]) -> (r: Result<ClassSelector, StyleError>)
        ensures
            match r {
                Ok(v) => spec_class_selector(raw@) == Ok::<SpecClassSelector, SpecStyleError>(v@),
                Err(e) => spec_class_selector(raw@) == Err::<SpecClassSelector, SpecStyleError>(
                    e@,
                ),
            },
    {
        let t = crate::text::trim_spaces_vec(raw);
        let n = t.len();
        if n == 0 {
            return Err(StyleError::new("empty class selector", t.as_slice()));
        }
        let i = crate::text::find_char(t.as_slice(), 0, ':');
        proof {
            crate::text::lemma_scan_to_char(t@, 0, ':');
        }
        if i == n {
            let class = strip_dot_vec(t.as_slice());
            return Ok(ClassSelector { class, selector: None });
        }
        let cls_raw = crate::text::span_to_vec(t.as_slice(), 0, i);
        let sel_raw = crate::text::span_to_vec(t.as_slice(), i + 1, n);
        let cls = crate::text::trim_spaces_vec(cls_raw.as_slice());
        let sel = crate::text::trim_spaces_vec(sel_raw.as_slice());
        if cls.len() == 0 || sel.len() == 0 {
            return Err(StyleError::new("invalid class selector", t.as_slice()));
        }
        match Selector::from_str(sel.as_slice()) {
            Ok(x) => Ok(ClassSelector { class: strip_dot_vec(cls.as_slice()), selector: Some(x) }),
            Err(e) => Err(e),
        }
    }
}

/// A copy of `s` with one leading `.` dropped.
fn strip_dot_vec(s: &[char]) -> (r: Vec<char>)
    ensures
        r@ == strip_dot(s@),
{
    if s.len() > 0 && s[0] == '.' {
        crate::text::span_to_vec(s, 1, s.len())
    } else {
        let r = crate::text::span_to_vec(s, 0, s.len());
        proof {
            assert(r@ =~= s@);
        }
        r
    }
}

/// Three-way lexicographic comparison of character sequences.
pub open spec fn chars_cmp(a: Seq<char>, b: Seq<char>) -> int
    decreases a.len(),
{
    if a.len() == 0 && b.len() == 0 {
        0
    } else if a.len() == 0 {
        -1
    } else if b.len() == 0 {
        1
    } else if a[0] < b[0] {
        -1
    } else if b[0] < a[0] {
        1
    } else {
        chars_cmp(a.subrange(1, a.len() as int), b.subrange(1, b.len() as int))
    }
}

pub proof fn lemma_chars_cmp_flip(a: Seq<char>, b: Seq<char>)
    ensures
        chars_cmp(a, b) == -chars_cmp(b, a),
    decreases a.len() + b.len(),
{
    if a.len() > 0 && b.len() > 0 && a[0] == b[0] {
        lemma_chars_cmp_flip(a.subrange(1, a.len() as int), b.subrange(1, b.len() as int));
    }
}

pub proof fn lemma_chars_cmp_zero(a: Seq<char>, b: Seq<char>)
    requires
        chars_cmp(a, b) == 0,
    ensures
        a == b,
    decreases a.len(),
{
    if a.len() > 0 && b.len() > 0 && a[0] == b[0] {
        lemma_chars_cmp_zero(a.subrange(1, a.len() as int), b.subrange(1, b.len() as int));
        assert forall|i: int| 0 <= i < a.len() implies a[i] == b[i] by {
            if i > 0 {
                assert(a[i] == a.subrange(1, a.len() as int)[i - 1]);
                assert(b[i] == b.subrange(1, b.len() as int)[i - 1]);
            }
        }
    }
    assert(a =~= b);
}

pub proof fn lemma_chars_cmp_refl(a: Seq<char>)
    ensures
        chars_cmp(a, a) == 0,
{
    lemma_chars_cmp_flip(a, a);
}

pub proof fn lemma_chars_cmp_trans(a: Seq<char>, b: Seq<char>, c: Seq<char>)
    requires
        chars_cmp(a, b) <= 0,
        chars_cmp(b, c) <= 0,
    ensures
        chars_cmp(a, c) <= 0,
        chars_cmp(a, b) < 0 || chars_cmp(b, c) < 0 ==> chars_cmp(a, c) < 0,
    decreases a.len() + b.len() + c.len(),
{
    if a.len() > 0 && b.len() > 0 && c.len() > 0 && a[0] == b[0] && b[0] == c[0] {
        lemma_chars_cmp_trans(
            a.subrange(1, a.len() as int),
            b.subrange(1, b.len() as int),
            c.subrange(1, c.len() as int),
        );
    }
}

/// The rank of a pseudo-state in the selector order: a bare class comes
/// first, then the states in declaration order.
pub open spec fn sel_rank(o: Option<Selector>) -> int {
    match o {
        Option::None => 0,
        Option::Some(Selector::Active) => 1,
        Option::Some(Selector::Focus) => 2,
        Option::Some(Selector::Hover) => 3,
        Option::Some(Selector::Disabled) => 4,
    }
}

/// The selector order: by class name lexicographically, then by pseudo-state
/// rank.
pub open spec fn sel_le(x: SpecClassSelector, y: SpecClassSelector) -> bool {
    chars_cmp(x.class, y.class) < 0 || (chars_cmp(x.class, y.class) == 0 && sel_rank(x.selector)
        <= sel_rank(y.selector))
}

pub proof fn lemma_sel_le_total(x: SpecClassSelector, y: SpecClassSelector)
    ensures
        sel_le(x, y) || sel_le(y, x),
{
    lemma_chars_cmp_flip(x.class, y.class);
}

pub proof fn lemma_sel_le_trans(x: SpecClassSelector, y: SpecClassSelector, z: SpecClassSelector)
    requires
        sel_le(x, y),
        sel_le(y, z),
    ensures
        sel_le(x, z),
{
    lemma_chars_cmp_trans(x.class, y.class, z.class);
    if chars_cmp(x.class, y.class) == 0 {
        lemma_chars_cmp_zero(x.class, y.class);
    }
    if chars_cmp(y.class, z.class) == 0 {
        lemma_chars_cmp_zero(y.class, z.class);
    }
    if chars_cmp(x.class, y.class) == 0 && chars_cmp(y.class, z.class) == 0 {
        lemma_chars_cmp_refl(x.class);
    }
}

/// Selector lists are kept sorted for a deterministic merge order.
pub open spec fn sels_sorted(s: Seq<SpecClassSelector>) -> bool {
    forall|i: int, j: int| 0 <= i < j < s.len() ==> sel_le(#[trigger] s[i], #[trigger] s[j])
}

/// Lexicographic comparison at run time.
fn chars_cmp_exec(a: &[char], b: &[char]) -> (r: i8)
    ensures
        r as int == chars_cmp(a@, b@),
{
    let mut i: usize = 0;
    proof {
        assert(a@.subrange(0, a@.len() as int) =~= a@);
        assert(b@.subrange(0, b@.len() as int) =~= b@);
    }
    loop
        invariant
            i <= a@.len(),
            i <= b@.len(),
            chars_cmp(a@, b@) == chars_cmp(
                a@.subrange(i as int, a@.len() as int),
                b@.subrange(i as int, b@.len() as int),
            ),
        decreases a@.len() - i,
    {
        let ghost ar = a@.subrange(i as int, a@.len() as int);
        let ghost br = b@.subrange(i as int, b@.len() as int);
        if i >= a.len() && i >= b.len() {
            proof {
                assert(ar.len() == 0 && br.len() == 0);
            }
            return 0;
        }
        if i >= a.len() {
            proof {
                assert(ar.len() == 0 && br.len() > 0);
            }
            return -1;
        }
        if i >= b.len() {
            proof {
                assert(br.len() == 0 && ar.len() > 0);
            }
            return 1;
        }
        proof {
            assert(ar[0] == a@[i as int]);
            assert(br[0] == b@[i as int]);
        }
        if a[i] < b[i] {
            return -1;
        }
        if b[i] < a[i] {
            return 1;
        }
        proof {
            assert(ar.subrange(1, ar.len() as int) =~= a@.subrange(i + 1, a@.len() as int));
            assert(br.subrange(1, br.len() as int) =~= b@.subrange(i + 1, b@.len() as int));
        }
        i = i + 1;
    }
}

fn sel_rank_exec(o: &Option<Selector>) -> (r: u8)
    ensures
        r as int == sel_rank(*o),
{
    match o {
        Option::None => 0,
        Option::Some(Selector::Active) => 1,
        Option::Some(Selector::Focus) => 2,
        Option::Some(Selector::Hover) => 3,
        Option::Some(Selector::Disabled) => 4,
    }
}

/// The selector order at run time.
fn sel_le_exec(x: &ClassSelector, y: &ClassSelector) -> (r: bool)
    ensures
        r == sel_le(x@, y@),
{
    let c = chars_cmp_exec(x.class.as_slice(), y.class.as_slice());
    if c < 0 {
        true
    } else if c == 0 {
        sel_rank_exec(&x.selector) <= sel_rank_exec(&y.selector)
    } else {
        false
    }
}

/// Sorts selectors by `sel_le`: the result is the sorted permutation of the
/// input.
fn sort_selectors(input: Vec<ClassSelector>) -> (r: Vec<ClassSelector>)
    ensures
        sels_sorted(r@.map_values(|c: ClassSelector| c@)),
        r@.map_values(|c: ClassSelector| c@).to_multiset() == input@.map_values(
            |c: ClassSelector| c@,
        ).to_multiset(),
        r@.len() == input@.len(),
{
    broadcast use vstd::seq_lib::group_to_multiset_ensures;
    broadcast use vstd::multiset::group_multiset_axioms;

    let mut rest = input;
    let mut out: Vec<ClassSelector> = Vec::new();
    let ghost full = rest@.map_values(|c: ClassSelector| c@).to_multiset();
    let ghost total = rest@.len();
    proof {
        assert(out@.map_values(|c: ClassSelector| c@) =~= Seq::<SpecClassSelector>::empty());
        assert(out@.map_values(|c: ClassSelector| c@).to_multiset().add(
            rest@.map_values(|c: ClassSelector| c@).to_multiset(),
        ) =~= full);
    }
    loop
        invariant
            forall|i: int, j: int|
                0 <= i < j < out@.len() ==> sel_le(#[trigger] out@[i]@, #[trigger] out@[j]@),
            out@.map_values(|c: ClassSelector| c@).to_multiset().add(
                rest@.map_values(|c: ClassSelector| c@).to_multiset(),
            ) == full,
            out@.len() + rest@.len() == total,
            full == input@.map_values(|c: ClassSelector| c@).to_multiset(),
            total == input@.len(),
            forall|i: int, j: int|
                0 <= i < out@.len() && 0 <= j < rest@.len() ==> sel_le(
                    #[trigger] out@[i]@,
                    #[trigger] rest@[j]@,
                ),
        decreases rest@.len(),
    {
        if rest.len() == 0 {
            proof {
                assert(rest@.map_values(|c: ClassSelector| c@) =~= Seq::<
                    SpecClassSelector,
                >::empty());
                let restm = rest@.map_values(|c: ClassSelector| c@).to_multiset();
                assert forall|x: SpecClassSelector| restm.count(x) == 0 by {
                    vstd::seq_lib::to_multiset_contains(
                        rest@.map_values(|c: ClassSelector| c@),
                        x,
                    );
                }
                assert(rest@.map_values(|c: ClassSelector| c@).to_multiset() =~= Multiset::<
                    SpecClassSelector,
                >::empty());
                assert(out@.map_values(|c: ClassSelector| c@).to_multiset() =~= full);
                let mapped = out@.map_values(|c: ClassSelector| c@);
                assert forall|i: int, j: int| 0 <= i < j < mapped.len() implies sel_le(
                    #[trigger] mapped[i],
                    #[trigger] mapped[j],
                ) by {
                    assert(mapped[i] == out@[i]@);
                    assert(mapped[j] == out@[j]@);
                }
            }
            return out;
        }
        // find the least remaining selector
        proof {
            lemma_sel_le_total(rest@[0]@, rest@[0]@);
        }
        let mut m: usize = 0;
        let mut k: usize = 1;
        while k < rest.len()
            invariant
                m < rest@.len(),
                k <= rest@.len(),
                rest@.len() > 0,
                forall|j: int| 0 <= j < k ==> sel_le(rest@[m as int]@, #[trigger] rest@[j]@),
            decreases rest@.len() - k,
        {
            if sel_le_exec(&rest[k], &rest[m]) {
                proof {
                    assert forall|j: int| 0 <= j < k + 1 implies sel_le(
                        rest@[k as int]@,
                        #[trigger] rest@[j]@,
                    ) by {
                        if j < k {
                            lemma_sel_le_trans(rest@[k as int]@, rest@[m as int]@, rest@[j]@);
                        } else {
                            lemma_sel_le_total(rest@[k as int]@, rest@[k as int]@);
                        }
                    }
                }
                m = k;
            } else {
                proof {
                    lemma_sel_le_total(rest@[m as int]@, rest@[k as int]@);
                }
            }
            k = k + 1;
        }
        let ghost mv = rest@.map_values(|c: ClassSelector| c@);
        let ghost restv0 = rest@;
        let ghost outv = out@.map_values(|c: ClassSelector| c@);
        let ghost outv0 = out@;
        let x = rest.remove(m);
        out.push(x);
        proof {
            assert(rest@.map_values(|c: ClassSelector| c@) =~= mv.remove(m as int));
            assert(out@.map_values(|c: ClassSelector| c@) =~= outv.push(mv[m as int]));
            vstd::seq_lib::to_multiset_build(outv, mv[m as int]);
            vstd::seq_lib::to_multiset_remove(mv, m as int);
            vstd::seq_lib::to_multiset_contains(mv, mv[m as int]);
            assert(outv.push(mv[m as int]).to_multiset() =~= outv.to_multiset().insert(
                mv[m as int],
            ));
            assert(mv.remove(m as int).to_multiset() =~= mv.to_multiset().remove(mv[m as int]));
            assert(mv.contains(mv[m as int]));
            assert(mv.to_multiset().count(mv[m as int]) > 0);
            assert(outv.to_multiset().insert(mv[m as int]).add(
                mv.to_multiset().remove(mv[m as int]),
            ) =~= outv.to_multiset().add(mv.to_multiset()));
            // the pushed element follows everything already placed and
            // precedes everything left
            assert forall|i: int, j: int| 0 <= i < j < out@.len() implies sel_le(
                #[trigger] out@[i]@,
                #[trigger] out@[j]@,
            ) by {
                if j < outv0.len() {
                    assert(out@[i] == outv0[i]);
                    assert(out@[j] == outv0[j]);
                } else {
                    assert(out@[j] == restv0[m as int]);
                    if i < outv0.len() {
                        assert(out@[i] == outv0[i]);
                    }
                }
            }
            assert forall|i: int, j: int|
                0 <= i < out@.len() && 0 <= j < rest@.len() implies sel_le(
                #[trigger] out@[i]@,
                #[trigger] rest@[j]@,
            ) by {
                if j < m {
                    assert(rest@[j] == restv0[j]);
                } else {
                    assert(rest@[j] == restv0[j + 1]);
                }
                if i < outv0.len() {
                    assert(out@[i] == outv0[i]);
                    if j < m {
                        assert(sel_le(out@[i]@, restv0[j]@));
                    } else {
                        assert(sel_le(out@[i]@, restv0[j + 1]@));
                    }
                } else {
                    assert(out@[i] == restv0[m as int]);
                    if j < m {
                        assert(sel_le(restv0[m as int]@, restv0[j]@));
                    } else {
                        assert(sel_le(restv0[m as int]@, restv0[j + 1]@));
                    }
                }
            }
        }
    }
}

/// One raw `key: value` property.
#[derive(Debug, Clone, PartialEq, Eq)]
pub struct StyleProperty {
    pub key: Vec<char>,
    pub value: Vec<char>,
}

pub struct SpecStyleProperty {
    pub key: Seq<char>,
    pub value: Seq<char>,
}

impl View for StyleProperty {
    type V = SpecStyleProperty;

    open spec fn view(&self) -> SpecStyleProperty {
        SpecStyleProperty { key: self.key@, value: self.value@ }
    }
}

/// The outcome of reading one property: the trimmed text must hold exactly
/// one `:`, which splits it into a trimmed key and a trimmed value.
pub open spec fn spec_style_property(raw: Seq<char>) -> Result<SpecStyleProperty, SpecStyleError> {
    let t = spec_trimmed(raw);
    let i = crate::text::scan_to_char(t, 0, ':');
    if i < t.len() && crate::text::scan_to_char(t, i + 1, ':') >= t.len() {
        Ok(
            SpecStyleProperty {
                key: spec_trimmed(t.subrange(0, i)),
                value: spec_trimmed(t.subrange(i + 1, t.len() as int)),
            },
        )
    } else {
        Err(SpecStyleError { error: "Expecting key value pair with :"@, value: raw })
    }
}

impl StyleProperty {
    /// Reads one `key: value` property.
    pub fn from_str(raw: &[char]) -> (r: Result<StyleProperty, StyleError>)
        ensures
            match r {
                Ok(v) => spec_style_property(raw@) == Ok::<SpecStyleProperty, SpecStyleError>(v@),
                Err(e) => spec_style_property(raw@) == Err::<SpecStyleProperty, SpecStyleError>(
                    e@,
                ),
            },
    {
        let t = crate::text::trim_spaces_vec(raw);
        let n = t.len();
        let i = crate::text::find_char(t.as_slice(), 0, ':');
        proof {
            crate::text::lemma_scan_to_char(t@, 0, ':');
        }
        if i == n {
            return Err(StyleError::new("Expecting key value pair with :", raw));
        }
        let second = crate::text::find_char(t.as_slice(), i + 1, ':');
        if second < n {
            return Err(StyleError::new("Expecting key value pair with :", raw));
        }
        let key_raw = crate::text::span_to_vec(t.as_slice(), 0, i);
        let value_raw = crate::text::span_to_vec(t.as_slice(), i + 1, n);
        Ok(
            StyleProperty {
                key: crate::text::trim_spaces_vec(key_raw.as_slice()),
                value: crate::text::trim_spaces_vec(value_raw.as_slice()),
            },
        )
    }
}


/// A property separator or brace, removed from property fragments.
pub open spec fn is_mark_char(c: char) -> bool {
    c == ';' || c == '{' || c == '}'
}

/// `s` with every `;`, `{` and `}` removed.
pub open spec fn strip_marks(s: Seq<char>) -> Seq<char>
    decreases s.len(),
{
    if s.len() == 0 {
        s
    } else {
        let p = strip_marks(s.drop_last());
        if is_mark_char(s.last()) {
            p
        } else {
            p.push(s.last())
        }
    }
}

/// A copy of `s` with every `;`, `{` and `}` removed.
fn strip_marks_vec(s: &[char]) -> (r: Vec<char>)
    ensures
        r@ == strip_marks(s@),
{
    let mut r: Vec<char> = Vec::new();
    let n = s.len();
    proof {
        assert(s@.subrange(0, 0) =~= Seq::<char>::empty());
    }
    for i in 0..n
        invariant
            n == s@.len(),
            r@ == strip_marks(s@.subrange(0, i as int)),
    {
        let ghost prefix = s@.subrange(0, i as int);
        let ghost prefix2 = s@.subrange(0, i + 1);
        proof {
            assert(prefix2.drop_last() =~= prefix);
            assert(prefix2.last() == s@[i as int]);
        }
        let c = s[i];
        if !(c == ';' || c == '{' || c == '}') {
            r.push(c);
        }
    }
    proof {
        assert(s@.subrange(0, n as int) =~= s@);
    }
    r
}

/// A body fragment readied for property parsing: trimmed, with separators
/// and braces removed.
pub open spec fn clean_fragment(p: Seq<char>) -> Seq<char> {
    strip_marks(spec_trimmed(p))
}

/// Reads the selector list pieces in order, failing on the first bad one.
pub open spec fn spec_selectors_from(
    pieces: Seq<Seq<char>>,
    i: int,
    acc: Seq<SpecClassSelector>,
) -> Result<Seq<SpecClassSelector>, SpecStyleError>
    decreases pieces.len() - i,
    when 0 <= i
{
    if i >= pieces.len() {
        Ok(acc)
    } else {
        match spec_class_selector(pieces[i]) {
            Ok(c) => spec_selectors_from(pieces, i + 1, acc.push(c)),
            Err(e) => Err(e),
        }
    }
}

/// A successful selector list holds one selector per piece.
pub proof fn lemma_selectors_from_len(pieces: Seq<Seq<char>>, i: int, acc: Seq<SpecClassSelector>)
    requires
        0 <= i <= pieces.len(),
    ensures
        match spec_selectors_from(pieces, i, acc) {
            Ok(r) => r.len() == acc.len() + pieces.len() - i,
            Err(_) => true,
        },
    decreases pieces.len() - i,
{
    if i < pieces.len() {
        match spec_class_selector(pieces[i]) {
            Ok(c) => {
                lemma_selectors_from_len(pieces, i + 1, acc.push(c));
            },
            Err(_) => {},
        }
    }
}

/// Reads the body fragments in order: empty fragments (after cleaning) are
/// skipped, well-formed ones become properties, and the rest become block
/// errors. A bad property never discards its siblings.
pub open spec fn spec_props_from(
    pieces: Seq<Seq<char>>,
    i: int,
    props: Seq<SpecStyleProperty>,
    errs: Seq<SpecStyleError>,
) -> (Seq<SpecStyleProperty>, Seq<SpecStyleError>)
    decreases pieces.len() - i,
    when 0 <= i
{
    if i >= pieces.len() {
        (props, errs)
    } else {
        let cleaned = clean_fragment(pieces[i]);
        if cleaned.len() == 0 {
            spec_props_from(pieces, i + 1, props, errs)
        } else {
            match spec_style_property(cleaned) {
                Ok(p) => spec_props_from(pieces, i + 1, props.push(p), errs),
                Err(e) => spec_props_from(pieces, i + 1, props, errs.push(e)),
            }
        }
    }
}

/// One style block: its selectors (sorted), its raw properties, and the
/// errors of its malformed properties.
#[derive(Debug, Clone, PartialEq, Eq)]
pub struct StyleBlock {
    pub selectors: Vec<ClassSelector>,
    pub props: Vec<StyleProperty>,
    pub errors: Vec<StyleError>,
}

pub struct SpecStyleBlock {
    pub selectors: Seq<SpecClassSelector>,
    pub props: Seq<SpecStyleProperty>,
    pub errors: Seq<SpecStyleError>,
}

impl View for StyleBlock {
    type V = SpecStyleBlock;

    open spec fn view(&self) -> SpecStyleBlock {
        SpecStyleBlock {
            selectors: self.selectors@.map_values(|c: ClassSelector| c@),
            props: self.props@.map_values(|p: StyleProperty| p@),
            errors: self.errors@.map_values(|e: StyleError| e@),
        }
    }
}

/// The outcome of reading one `selectors { body }` chunk, with the selectors
/// in source order: the text before the first `{` is the comma-separated
/// selector list (it must be nonempty and every selector must parse, else the
/// whole chunk is in error); the text after it is split on `;` into property
/// fragments.
pub open spec fn spec_style_block(chunk: Seq<char>) -> Result<SpecStyleBlock, Seq<char>> {
    let brace = crate::text::scan_to_char(chunk, 0, '{');
    if brace >= chunk.len() {
        Err("Missing opening token {"@)
    } else if brace == 0 {
        Err("Class must contain value"@)
    } else {
        match spec_selectors_from(
            crate::text::split_from(chunk.subrange(0, brace), 0, ','),
            0,
            Seq::empty(),
        ) {
            Err(e) => Err(e.error),
            Ok(sels) => {
                let pe = spec_props_from(
                    crate::text::split_from(chunk.subrange(brace + 1, chunk.len() as int), 0, ';'),
                    0,
                    Seq::empty(),
                    Seq::empty(),
                );
                Ok(SpecStyleBlock { selectors: sels, props: pe.0, errors: pe.1 })
            },
        }
    }
}

/// The block `b` reads chunk text as the raw outcome `raw` does, with its
/// selectors sorted.
pub open spec fn block_matches(b: SpecStyleBlock, raw: SpecStyleBlock) -> bool {
    &&& b.props == raw.props
    &&& b.errors == raw.errors
    &&& sels_sorted(b.selectors)
    &&& b.selectors.to_multiset() == raw.selectors.to_multiset()
    &&& b.selectors.len() == raw.selectors.len()
}

impl StyleBlock {
    /// Reads one chunk into a block, sorting its selectors. The selector
    /// list of a successful block is never empty.
    pub fn from_str(chunk: &[char]) -> (r: Result<StyleBlock, Vec<char>>)
        ensures
            match r {
                Ok(b) => spec_style_block(chunk@) is Ok && block_matches(
                    b@,
                    spec_style_block(chunk@)->Ok_0,
                ) && b@.selectors.len() >= 1,
                Err(m) => spec_style_block(chunk@) == Err::<SpecStyleBlock, Seq<char>>(m@),
            },
    {
        let n = chunk.len();
        let brace = crate::text::find_char(chunk, 0, '{');
        if brace == n {
            return Err(crate::text::str_to_chars("Missing opening token {"));
        }
        if brace == 0 {
            return Err(crate::text::str_to_chars("Class must contain value"));
        }
        let class_part = crate::text::span_to_vec(chunk, 0, brace);
        let pieces = crate::text::split_char(class_part.as_slice(), ',');
        let ghost piecesv = pieces@.map_values(|p: Vec<char>| p@);
        let mut sels: Vec<ClassSelector> = Vec::new();
        let np = pieces.len();
        proof {
            assert(sels@.map_values(|c: ClassSelector| c@) =~= Seq::<SpecClassSelector>::empty());
        }
        for i in 0..np
            invariant
                np == pieces@.len(),
                0 < brace < chunk@.len(),
                brace == crate::text::scan_to_char(chunk@, 0, '{'),
                piecesv == pieces@.map_values(|p: Vec<char>| p@),
                piecesv == crate::text::split_from(chunk@.subrange(0, brace as int), 0, ','),
                spec_selectors_from(piecesv, 0, Seq::empty()) == spec_selectors_from(
                    piecesv,
                    i as int,
                    sels@.map_values(|c: ClassSelector| c@),
                ),
        {
            let ghost accv = sels@.map_values(|c: ClassSelector| c@);
            proof {
                assert(piecesv[i as int] == pieces@[i as int]@);
            }
            match ClassSelector::from_str(pieces[i].as_slice()) {
                Ok(c) => {
                    sels.push(c);
                    proof {
                        assert(sels@.map_values(|cc: ClassSelector| cc@) =~= accv.push(c@));
                    }
                },
                Err(e) => {
                    return Err(e.error);
                },
            }
        }
        let ghost rawsels = sels@.map_values(|c: ClassSelector| c@);
        proof {
            lemma_selectors_from_len(piecesv, 0, Seq::<SpecClassSelector>::empty());
            crate::text::lemma_scan_to_char(chunk@.subrange(0, brace as int), 0, ',');
            assert(piecesv.len() >= 1);
        }
        let selectors = sort_selectors(sels);

        let body = crate::text::span_to_vec(chunk, brace + 1, n);
        let frags = crate::text::split_char(body.as_slice(), ';');
        let ghost fragsv = frags@.map_values(|p: Vec<char>| p@);
        let mut props: Vec<StyleProperty> = Vec::new();
        let mut errors: Vec<StyleError> = Vec::new();
        let nf = frags.len();
        proof {
            assert(props@.map_values(|p: StyleProperty| p@) =~= Seq::<SpecStyleProperty>::empty());
            assert(errors@.map_values(|e: StyleError| e@) =~= Seq::<SpecStyleError>::empty());
        }
        for i in 0..nf
            invariant
                nf == frags@.len(),
                0 < brace < chunk@.len(),
                brace == crate::text::scan_to_char(chunk@, 0, '{'),
                rawsels == sels@.map_values(|c: ClassSelector| c@),
                spec_selectors_from(piecesv, 0, Seq::empty()) == Ok::<
                    Seq<SpecClassSelector>,
                    SpecStyleError,
                >(rawsels),
                piecesv == crate::text::split_from(chunk@.subrange(0, brace as int), 0, ','),
                sels_sorted(selectors@.map_values(|c: ClassSelector| c@)),
                selectors@.map_values(|c: ClassSelector| c@).to_multiset() == rawsels.to_multiset(),
                selectors@.len() == sels@.len(),
                rawsels.len() >= 1,
                fragsv == frags@.map_values(|p: Vec<char>| p@),
                fragsv == crate::text::split_from(
                    chunk@.subrange(brace as int + 1, chunk@.len() as int),
                    0,
                    ';',
                ),
                spec_props_from(fragsv, 0, Seq::empty(), Seq::empty()) == spec_props_from(
                    fragsv,
                    i as int,
                    props@.map_values(|p: StyleProperty| p@),
                    errors@.map_values(|e: StyleError| e@),
                ),
        {
            let ghost pacc = props@.map_values(|p: StyleProperty| p@);
            let ghost eacc = errors@.map_values(|e: StyleError| e@);
            proof {
                assert(fragsv[i as int] == frags@[i as int]@);
            }
            let trimmed = crate::text::trim_spaces_vec(frags[i].as_slice());
            let cleaned = strip_marks_vec(trimmed.as_slice());
            if cleaned.len() > 0 {
                match StyleProperty::from_str(cleaned.as_slice()) {
                    Ok(p) => {
                        props.push(p);
                        proof {
                            assert(props@.map_values(|pp: StyleProperty| pp@) =~= pacc.push(p@));
                        }
                    },
                    Err(e) => {
                        errors.push(e);
                        proof {
                            assert(errors@.map_values(|ee: StyleError| ee@) =~= eacc.push(e@));
                        }
                    },
                }
            }
        }
        Ok(StyleBlock { selectors, props, errors })
    }
}


/// The first comment (`/*`, at least one character that is not a `*`, then
/// `*/`) at or after `from`: its start and the position after its `*/`.
pub open spec fn find_comment(s: Seq<char>, from: int) -> Option<(int, int)>
    decreases s.len() - from,
    when 0 <= from
    via find_comment_dec
{
    if from + 4 > s.len() {
        None
    } else if s[from] == '/' && s[from + 1] == '*' {
        let j = crate::text::scan_to_char(s, from + 2, '*');
        if j >= s.len() {
            None
        } else if j == from + 2 {
            find_comment(s, from + 1)
        } else if j + 1 < s.len() && s[j + 1] == '/' {
            Some((from, j + 2))
        } else {
            find_comment(s, from + 1)
        }
    } else {
        find_comment(s, from + 1)
    }
}

#[via_fn]
proof fn find_comment_dec(s: Seq<char>, from: int) {
}

/// A found comment lies within the text and is at least four characters
/// long.
pub proof fn lemma_find_comment_bounds(s: Seq<char>, from: int)
    requires
        0 <= from,
    ensures
        match find_comment(s, from) {
            Some(c) => from <= c.0 && c.0 + 4 <= c.1 <= s.len(),
            None => true,
        },
    decreases s.len() - from,
{
    if from + 4 <= s.len() {
        if s[from] == '/' && s[from + 1] == '*' {
            crate::text::lemma_scan_to_char(s, from + 2, '*');
            let j = crate::text::scan_to_char(s, from + 2, '*');
            if j < s.len() && j != from + 2 && !(j + 1 < s.len() && s[j + 1] == '/') {
                lemma_find_comment_bounds(s, from + 1);
            } else if j >= s.len() {
            } else if j == from + 2 {
                lemma_find_comment_bounds(s, from + 1);
            }
        } else {
            lemma_find_comment_bounds(s, from + 1);
        }
    }
}

/// The text from `from` on with every comment removed, scanning left to
/// right and continuing after each removal.
pub open spec fn strip_comments_from(s: Seq<char>, from: int) -> Seq<char>
    decreases s.len() - from,
    when 0 <= from
    via strip_comments_from_dec
{
    match find_comment(s, from) {
        Option::None => s.subrange(from, s.len() as int),
        Option::Some(c) => s.subrange(from, c.0) + strip_comments_from(s, c.1),
    }
}

#[via_fn]
proof fn strip_comments_from_dec(s: Seq<char>, from: int) {
    lemma_find_comment_bounds(s, from);
}

/// Finds the first comment at or after `from`, as `find_comment` describes.
fn find_comment_exec(s: &[char], from: usize) -> (r: Option<(usize, usize)>)
    requires
        from <= s@.len(),
    ensures
        match r {
            Some(c) => find_comment(s@, from as int) == Some((c.0 as int, c.1 as int)) && from
                <= c.0 && c.0 + 4 <= c.1 <= s@.len(),
            None => find_comment(s@, from as int) is None,
        },
{
    let mut i = from;
    loop
        invariant
            from <= i <= s@.len(),
            find_comment(s@, from as int) == find_comment(s@, i as int),
        decreases s@.len() - i,
    {
        if s.len() < 4 || i > s.len() - 4 {
            return None;
        }
        if s[i] == '/' && s[i + 1] == '*' {
            let j = crate::text::find_char(s, i + 2, '*');
            proof {
                crate::text::lemma_scan_to_char(s@, i as int + 2, '*');
            }
            if j == s.len() {
                return None;
            }
            if j != i + 2 && j + 1 < s.len() && s[j + 1] == '/' {
                return Some((i, j + 2));
            }
        }
        i = i + 1;
    }
}

/// A copy of `s` with every comment removed.
pub fn strip_comments(s: &[char]) -> (r: Vec<char>)
    ensures
        r@ == strip_comments_from(s@, 0),
{
    let mut out: Vec<char> = Vec::new();
    let mut cur: usize = 0;
    loop
        invariant
            cur <= s@.len(),
            out@ + strip_comments_from(s@, cur as int) == strip_comments_from(s@, 0),
        decreases s@.len() - cur,
    {
        let ghost outv = out@;
        match find_comment_exec(s, cur) {
            Some((a, b)) => {
                crate::text::push_span(&mut out, s, cur, a);
                proof {
                    assert(out@ + strip_comments_from(s@, b as int) =~= strip_comments_from(
                        s@,
                        0,
                    ));
                }
                cur = b;
            },
            None => {
                crate::text::push_span(&mut out, s, cur, s.len());
                proof {
                    assert(out@ =~= strip_comments_from(s@, 0));
                }
                return out;
            },
        }
    }
}

/// Whether the text `pat` stands at position `i` of `s`.
pub open spec fn sub_at(s: Seq<char>, i: int, pat: Seq<char>) -> bool {
    0 <= i && i + pat.len() <= s.len() && s.subrange(i, i + pat.len()) == pat
}

/// The first position at or after `from` where `pat` stands in `s`.
pub open spec fn find_sub(s: Seq<char>, from: int, pat: Seq<char>) -> Option<int>
    decreases s.len() + 1 - from,
    when 0 <= from
{
    if from + pat.len() > s.len() {
        None
    } else if sub_at(s, from, pat) {
        Some(from)
    } else {
        find_sub(s, from + 1, pat)
    }
}

pub proof fn lemma_find_sub_bounds(s: Seq<char>, from: int, pat: Seq<char>)
    requires
        0 <= from,
    ensures
        match find_sub(s, from, pat) {
            Some(i) => from <= i && i + pat.len() <= s.len() && sub_at(s, i, pat),
            None => true,
        },
    decreases s.len() + 1 - from,
{
    if from + pat.len() <= s.len() && !sub_at(s, from, pat) {
        lemma_find_sub_bounds(s, from + 1, pat);
    }
}

/// Finds the first occurrence of `pat` in `s` at or after `from`.
fn find_sub_exec(s: &[char], from: usize, pat: &[char]) -> (r: Option<usize>)
    requires
        from <= s@.len(),
    ensures
        match r {
            Some(i) => find_sub(s@, from as int, pat@) == Some(i as int) && from <= i && i
                + pat@.len() <= s@.len(),
            None => find_sub(s@, from as int, pat@) is None,
        },
{
    let mut i = from;
    loop
        invariant
            from <= i <= s@.len(),
            find_sub(s@, from as int, pat@) == find_sub(s@, i as int, pat@),
        decreases s@.len() - i,
    {
        if pat.len() > s.len() - i {
            return None;
        }
        // compare pat against s at i
        let mut k: usize = 0;
        let mut matched = true;
        while k < pat.len() && matched
            invariant
                k <= pat@.len(),
                i + pat@.len() <= s@.len(),
                i <= s@.len(),
                s@.len() <= usize::MAX,
                matched ==> forall|j: int| 0 <= j < k ==> s@[i + j] == pat@[j],
                !matched ==> !sub_at(s@, i as int, pat@) && pat@.len() >= 1,
            decreases pat@.len() - k + (if matched { 1int } else { 0int }),
        {
            if s[i + k] != pat[k] {
                proof {
                    assert(s@.subrange(i as int, i + pat@.len())[k as int] != pat@[k as int]);
                }
                matched = false;
            } else {
                k = k + 1;
            }
        }
        if matched {
            proof {
                assert(s@.subrange(i as int, i + pat@.len()) =~= pat@);
            }
            return Some(i);
        }
        proof {
            assert(!sub_at(s@, i as int, pat@));
            assert(pat@.len() >= 1);
        }
        i = i + 1;
    }
}

/// `s` from `from` on, with every occurrence of `pat` replaced by `v`,
/// scanning left to right and continuing after each replacement (replaced
/// text is not rescanned).
pub open spec fn replace_from(s: Seq<char>, from: int, pat: Seq<char>, v: Seq<char>) -> Seq<char>
    decreases s.len() - from,
    when 0 <= from && pat.len() >= 1
    via replace_from_dec
{
    match find_sub(s, from, pat) {
        Option::None => s.subrange(from, s.len() as int),
        Option::Some(i) => s.subrange(from, i) + v + replace_from(s, i + pat.len(), pat, v),
    }
}

#[via_fn]
proof fn replace_from_dec(s: Seq<char>, from: int, pat: Seq<char>, v: Seq<char>) {
    lemma_find_sub_bounds(s, from, pat);
}

/// A copy of `s` with every occurrence of `pat` replaced by `v`.
fn replace_all(s: &[char], pat: &[char], v: &[char]) -> (r: Vec<char>)
    requires
        pat@.len() >= 1,
    ensures
        r@ == replace_from(s@, 0, pat@, v@),
{
    let mut out: Vec<char> = Vec::new();
    let mut cur: usize = 0;
    let n = s.len();
    loop
        invariant
            cur <= s@.len(),
            n == s@.len(),
            pat@.len() >= 1,
            out@ + replace_from(s@, cur as int, pat@, v@) == replace_from(s@, 0, pat@, v@),
        decreases s@.len() - cur,
    {
        match find_sub_exec(s, cur, pat) {
            Some(i) => {
                proof {
                    lemma_find_sub_bounds(s@, cur as int, pat@);
                }
                crate::text::push_span(&mut out, s, cur, i);
                crate::text::append_chars(&mut out, v);
                proof {
                    assert(out@ + replace_from(s@, i + pat@.len(), pat@, v@)
                        =~= replace_from(s@, 0, pat@, v@));
                }
                cur = i + pat.len();
            },
            None => {
                crate::text::push_span(&mut out, s, cur, s.len());
                proof {
                    assert(out@ =~= replace_from(s@, 0, pat@, v@));
                }
                return out;
            },
        }
    }
}

/// The `}`-inclusive chunks of `s` from `from` on: each piece runs through
/// its `}`; a last piece without one runs to the end; nothing is yielded for
/// an empty tail.
pub open spec fn split_inc_from(s: Seq<char>, from: int) -> Seq<Seq<char>>
    decreases s.len() - from,
    when 0 <= from
    via split_inc_from_dec
{
    if from >= s.len() {
        Seq::empty()
    } else {
        let i = crate::text::scan_to_char(s, from, '}');
        if i >= s.len() {
            seq![s.subrange(from, s.len() as int)]
        } else {
            seq![s.subrange(from, i + 1)] + split_inc_from(s, i + 1)
        }
    }
}

#[via_fn]
proof fn split_inc_from_dec(s: Seq<char>, from: int) {
    if from < s.len() {
        crate::text::lemma_scan_to_char(s, from, '}');
    }
}

/// Splits `s` into `}`-inclusive chunks.
fn split_inclusive_brace(s: &[char]) -> (r: Vec<Vec<char>>)
    ensures
        r@.map_values(|p: Vec<char>| p@) == split_inc_from(s@, 0),
{
    let mut pieces: Vec<Vec<char>> = Vec::new();
    let mut cur: usize = 0;
    proof {
        assert(pieces@.map_values(|p: Vec<char>| p@) =~= Seq::<Seq<char>>::empty());
        assert(Seq::<Seq<char>>::empty() + split_inc_from(s@, 0) =~= split_inc_from(s@, 0));
    }
    loop
        invariant
            cur <= s@.len(),
            pieces@.map_values(|p: Vec<char>| p@) + split_inc_from(s@, cur as int)
                == split_inc_from(s@, 0),
        decreases s@.len() - cur,
    {
        let ghost accv = pieces@.map_values(|p: Vec<char>| p@);
        if cur >= s.len() {
            proof {
                assert(accv + Seq::<Seq<char>>::empty() =~= accv);
            }
            return pieces;
        }
        let i = crate::text::find_char(s, cur, '}');
        proof {
            crate::text::lemma_scan_to_char(s@, cur as int, '}');
        }
        if i == s.len() {
            pieces.push(crate::text::span_to_vec(s, cur, s.len()));
            proof {
                assert(pieces@.map_values(|p: Vec<char>| p@) =~= accv.push(
                    s@.subrange(cur as int, s@.len() as int),
                ));
                assert(accv.push(s@.subrange(cur as int, s@.len() as int)) =~= accv + seq![
                    s@.subrange(cur as int, s@.len() as int)
                ]);
                assert(split_inc_from(s@, cur as int) =~= seq![
                    s@.subrange(cur as int, s@.len() as int)
                ]);
                assert(pieces@.map_values(|p: Vec<char>| p@) + Seq::<Seq<char>>::empty()
                    =~= pieces@.map_values(|p: Vec<char>| p@));
            }
            return pieces;
        }
        pieces.push(crate::text::span_to_vec(s, cur, i + 1));
        proof {
            assert(pieces@.map_values(|p: Vec<char>| p@) =~= accv.push(
                s@.subrange(cur as int, i + 1),
            ));
            assert(accv.push(s@.subrange(cur as int, i + 1)) =~= accv + seq![
                s@.subrange(cur as int, i + 1)
            ]);
            assert((accv + seq![s@.subrange(cur as int, i + 1)]) + split_inc_from(s@, i + 1)
                =~= accv + split_inc_from(s@, cur as int));
        }
        cur = i + 1;
    }
}

/// The first chunk holding the text `:root`, if any.
pub open spec fn root_chunk(chunks: Seq<Seq<char>>, i: int) -> Option<Seq<char>>
    decreases chunks.len() - i,
    when 0 <= i
{
    if i >= chunks.len() {
        None
    } else if find_sub(chunks[i], 0, ":root"@) is Some {
        Some(chunks[i])
    } else {
        root_chunk(chunks, i + 1)
    }
}

/// The first `{...}` group with nonempty content, as the root block's body
/// is located.
pub open spec fn find_braced(s: Seq<char>, from: int) -> Option<(int, int)>
    decreases s.len() - from,
    when 0 <= from
    via find_braced_dec
{
    let i = crate::text::scan_to_char(s, from, '{');
    if i >= s.len() {
        None
    } else {
        let j = crate::text::scan_to_char(s, i + 1, '}');
        if j >= s.len() {
            None
        } else if j == i + 1 {
            find_braced(s, i + 1)
        } else {
            Some((i + 1, j))
        }
    }
}

#[via_fn]
proof fn find_braced_dec(s: Seq<char>, from: int) {
    if from <= s.len() {
        crate::text::lemma_scan_to_char(s, from, '{');
        let i = crate::text::scan_to_char(s, from, '{');
        if i < s.len() {
            crate::text::lemma_scan_to_char(s, i + 1, '}');
        }
    }
}

/// Finds the first nonempty braced group.
fn find_braced_exec(s: &[char]) -> (r: Option<(usize, usize)>)
    ensures
        match r {
            Some(p) => find_braced(s@, 0) == Some((p.0 as int, p.1 as int)) && p.0 <= p.1
                <= s@.len(),
            None => find_braced(s@, 0) is None,
        },
{
    let mut from: usize = 0;
    loop
        invariant
            from <= s@.len(),
            find_braced(s@, 0) == find_braced(s@, from as int),
        decreases s@.len() - from,
    {
        let i = crate::text::find_char(s, from, '{');
        proof {
            crate::text::lemma_scan_to_char(s@, from as int, '{');
        }
        if i == s.len() {
            return None;
        }
        let j = crate::text::find_char(s, i + 1, '}');
        proof {
            crate::text::lemma_scan_to_char(s@, i as int + 1, '}');
        }
        if j == s.len() {
            return None;
        }
        if j == i + 1 {
            from = i + 1;
        } else {
            return Some((i + 1, j));
        }
    }
}

/// The root block's substitution entries: the body split on `;`, each
/// nonempty entry split at its first `:` into a trimmed key and value;
/// entries without a `:` are dropped.
pub open spec fn root_entries_from(
    pieces: Seq<Seq<char>>,
    i: int,
    acc: Seq<(Seq<char>, Seq<char>)>,
) -> Seq<(Seq<char>, Seq<char>)>
    decreases pieces.len() - i,
    when 0 <= i
{
    if i >= pieces.len() {
        acc
    } else {
        let t = spec_trimmed(pieces[i]);
        if t.len() == 0 {
            root_entries_from(pieces, i + 1, acc)
        } else {
            let c = crate::text::scan_to_char(t, 0, ':');
            if c >= t.len() {
                root_entries_from(pieces, i + 1, acc)
            } else {
                root_entries_from(
                    pieces,
                    i + 1,
                    acc.push(
                        (
                            spec_trimmed(t.subrange(0, c)),
                            spec_trimmed(t.subrange(c + 1, t.len() as int)),
                        ),
                    ),
                )
            }
        }
    }
}

/// The pattern a root variable is referenced by.
pub open spec fn var_pattern(k: Seq<char>) -> Seq<char> {
    "var("@ + k + ")"@
}

/// The buffer after substituting the entries in order: each step replaces
/// every `var(key)` with the entry's value, later entries seeing the earlier
/// entries' work.
pub open spec fn apply_entries(buf: Seq<char>, entries: Seq<(Seq<char>, Seq<char>)>, i: int) -> Seq<
    char,
>
    decreases entries.len() - i,
    when 0 <= i
{
    if i >= entries.len() {
        buf
    } else {
        apply_entries(
            replace_from(buf, 0, var_pattern(entries[i].0), entries[i].1),
            entries,
            i + 1,
        )
    }
}

/// The style source after comment stripping and root-variable substitution.
pub open spec fn spec_substituted(s: Seq<char>) -> Seq<char> {
    let stripped = strip_comments_from(s, 0);
    match root_chunk(split_inc_from(stripped, 0), 0) {
        Option::Some(ch) => match find_braced(ch, 0) {
            Option::Some(g) => apply_entries(
                stripped,
                root_entries_from(
                    crate::text::split_from(ch.subrange(g.0, g.1), 0, ';'),
                    0,
                    Seq::empty(),
                ),
                0,
            ),
            Option::None => stripped,
        },
        Option::None => stripped,
    }
}

/// The blocks of the substituted buffer: every `}`-chunk that does not
/// mention `:root` and parses, in order; chunks in error are dropped.
pub open spec fn collect_blocks(chunks: Seq<Seq<char>>, i: int, acc: Seq<SpecStyleBlock>) -> Seq<
    SpecStyleBlock,
>
    decreases chunks.len() - i,
    when 0 <= i
{
    if i >= chunks.len() {
        acc
    } else if find_sub(chunks[i], 0, ":root"@) is Some {
        collect_blocks(chunks, i + 1, acc)
    } else {
        match spec_style_block(chunks[i]) {
            Ok(b) => collect_blocks(chunks, i + 1, acc.push(b)),
            Err(_) => collect_blocks(chunks, i + 1, acc),
        }
    }
}

/// The style sheet's blocks, before selector sorting.
pub open spec fn spec_blocks(s: Seq<char>) -> Seq<SpecStyleBlock> {
    collect_blocks(split_inc_from(spec_substituted(s), 0), 0, Seq::empty())
}

/// The style-sheet parser.
pub struct StyleParser;

impl StyleParser {
    /// Parses a style sheet: comments are stripped, the first `:root` block's
    /// entries are substituted through the whole buffer, and every remaining
    /// chunk is read as a block. Bad chunks are dropped and bad properties
    /// land in their block's `errors`; each returned block has at least one
    /// selector, and its selectors are sorted.
    pub fn blocks(buf: &[char]) -> (r: Vec<StyleBlock>)
        ensures
            r@.len() == spec_blocks(buf@).len(),
            forall|i: int|
                0 <= i < r@.len() ==> block_matches(#[trigger] r@[i]@, spec_blocks(buf@)[i])
                    && r@[i]@.selectors.len() >= 1,
    {
        let stripped = strip_comments(buf);
        let ghost strippedv = stripped@;
        let chunks0 = split_inclusive_brace(stripped.as_slice());
        let ghost chunks0v = chunks0@.map_values(|p: Vec<char>| p@);
        let root_pat = crate::text::str_to_chars(":root");

        // locate the root block, if any
        let n0 = chunks0.len();
        let mut root_idx: usize = n0;
        let mut i: usize = 0;
        while i < n0 && root_idx == n0
            invariant
                i <= n0,
                n0 == chunks0@.len(),
                chunks0v == chunks0@.map_values(|p: Vec<char>| p@),
                root_pat@ == ":root"@,
                root_idx <= n0,
                root_idx == n0 ==> root_chunk(chunks0v, 0) == root_chunk(chunks0v, i as int),
                root_idx < n0 ==> root_chunk(chunks0v, 0) == Some(chunks0v[root_idx as int]),
            decreases n0 - i + (if root_idx == n0 { 1int } else { 0int }),
        {
            proof {
                assert(chunks0v[i as int] == chunks0@[i as int]@);
            }
            match find_sub_exec(chunks0[i].as_slice(), 0, root_pat.as_slice()) {
                Some(_) => {
                    root_idx = i;
                },
                None => {
                    i = i + 1;
                },
            }
        }

        let mut buf2 = stripped;
        let mut substituted = false;
        if root_idx < n0 {
            if let Some((ga, gb)) = find_braced_exec(chunks0[root_idx].as_slice()) {
                let g = crate::text::span_to_vec(chunks0[root_idx].as_slice(), ga, gb);
                let raw_entries = crate::text::split_char(g.as_slice(), ';');
                let ghost rawv = raw_entries@.map_values(|p: Vec<char>| p@);
                let ghost entriesv = root_entries_from(rawv, 0, Seq::empty());
                // gather the key/value entries
                let mut entries: Vec<(Vec<char>, Vec<char>)> = Vec::new();
                let ne = raw_entries.len();
                proof {
                    assert(entries@.map_values(|e: (Vec<char>, Vec<char>)| (e.0@, e.1@)) =~= Seq::<
                        (Seq<char>, Seq<char>),
                    >::empty());
                }
                let mut k: usize = 0;
                while k < ne
                    invariant
                        k <= ne,
                        ne == raw_entries@.len(),
                        rawv == raw_entries@.map_values(|p: Vec<char>| p@),
                        entriesv == root_entries_from(rawv, 0, Seq::empty()),
                        root_entries_from(rawv, 0, Seq::empty()) == root_entries_from(
                            rawv,
                            k as int,
                            entries@.map_values(|e: (Vec<char>, Vec<char>)| (e.0@, e.1@)),
                        ),
                    decreases ne - k,
                {
                    let ghost eacc = entries@.map_values(
                        |e: (Vec<char>, Vec<char>)| (e.0@, e.1@),
                    );
                    proof {
                        assert(rawv[k as int] == raw_entries@[k as int]@);
                    }
                    let t = crate::text::trim_spaces_vec(raw_entries[k].as_slice());
                    if t.len() > 0 {
                        let c = crate::text::find_char(t.as_slice(), 0, ':');
                        proof {
                            crate::text::lemma_scan_to_char(t@, 0, ':');
                        }
                        if c < t.len() {
                            let key_raw = crate::text::span_to_vec(t.as_slice(), 0, c);
                            let val_raw = crate::text::span_to_vec(t.as_slice(), c + 1, t.len());
                            let key = crate::text::trim_spaces_vec(key_raw.as_slice());
                            let val = crate::text::trim_spaces_vec(val_raw.as_slice());
                            entries.push((key, val));
                            proof {
                                assert(entries@.map_values(
                                    |e: (Vec<char>, Vec<char>)| (e.0@, e.1@),
                                ) =~= eacc.push((key@, val@)));
                            }
                        }
                    }
                    k = k + 1;
                }
                proof {
                    assert(entriesv == entries@.map_values(
                        |e: (Vec<char>, Vec<char>)| (e.0@, e.1@),
                    ));
                }
                // apply the substitutions in order
                let nent = entries.len();
                let mut j: usize = 0;
                while j < nent
                    invariant
                        j <= nent,
                        nent == entries@.len(),
                        entriesv == entries@.map_values(
                            |e: (Vec<char>, Vec<char>)| (e.0@, e.1@),
                        ),
                        apply_entries(buf2@, entriesv, j as int) == apply_entries(
                            strippedv,
                            entriesv,
                            0,
                        ),
                    decreases nent - j,
                {
                    let mut pat: Vec<char> = crate::text::str_to_chars("var(");
                    crate::text::append_chars(&mut pat, entries[j].0.as_slice());
                    pat.push(')');
                    proof {
                        reveal_strlit("var(");
                        reveal_strlit(")");
                        assert(")"@ =~= seq![')']);
                        assert(entries@.map_values(|e: (Vec<char>, Vec<char>)| (e.0@, e.1@))[
                            j as int] == (entries@[j as int].0@, entries@[j as int].1@));
                        assert(pat@ =~= var_pattern(entriesv[j as int].0));
                        assert(pat@.len() >= 1);
                    }
                    buf2 = replace_all(buf2.as_slice(), pat.as_slice(), entries[j].1.as_slice());
                    j = j + 1;
                }
                substituted = true;
                proof {
                    assert(apply_entries(buf2@, entriesv, nent as int) == buf2@);
                    assert(buf2@ == apply_entries(strippedv, entriesv, 0));
                    assert(chunks0v == split_inc_from(strippedv, 0));
                    assert(root_chunk(chunks0v, 0) == Some(chunks0v[root_idx as int]));
                    assert(chunks0v[root_idx as int] == chunks0@[root_idx as int]@);
                    assert(find_braced(chunks0v[root_idx as int], 0) == Some((
                        ga as int,
                        gb as int,
                    )));
                    assert(g@ == chunks0v[root_idx as int].subrange(ga as int, gb as int));
                    assert(entriesv == root_entries_from(
                        crate::text::split_from(g@, 0, ';'),
                        0,
                        Seq::empty(),
                    ));
                    assert(strippedv == strip_comments_from(buf@, 0));
                    assert(spec_substituted(buf@) == apply_entries(strippedv, entriesv, 0));
                    assert(buf2@ == spec_substituted(buf@));
                }
            }
        }
        proof {
            if !substituted {
                assert(strippedv == strip_comments_from(buf@, 0));
                assert(chunks0v == split_inc_from(strippedv, 0));
                if root_idx == n0 {
                    assert(root_chunk(chunks0v, n0 as int) is None);
                    assert(root_chunk(chunks0v, 0) is None);
                } else {
                    assert(root_chunk(chunks0v, 0) == Some(chunks0v[root_idx as int]));
                    assert(chunks0v[root_idx as int] == chunks0@[root_idx as int]@);
                    assert(find_braced(chunks0v[root_idx as int], 0) is None);
                }
                assert(buf2@ == spec_substituted(buf@));
            }
        }

        // split into chunks and parse each block
        let chunks = split_inclusive_brace(buf2.as_slice());
        let ghost chunksv = chunks@.map_values(|p: Vec<char>| p@);
        let mut out: Vec<StyleBlock> = Vec::new();
        let nc = chunks.len();
        let ghost target = collect_blocks(chunksv, 0, Seq::empty());
        let ghost mut raws: Seq<SpecStyleBlock> = Seq::empty();
        let mut ci: usize = 0;
        while ci < nc
            invariant
                ci <= nc,
                nc == chunks@.len(),
                chunksv == chunks@.map_values(|p: Vec<char>| p@),
                root_pat@ == ":root"@,
                target == spec_blocks(buf@),
                target == collect_blocks(chunksv, 0, Seq::empty()),
                raws.len() == out@.len(),
                collect_blocks(chunksv, 0, Seq::empty()) == collect_blocks(
                    chunksv,
                    ci as int,
                    raws,
                ),
                forall|x: int|
                    0 <= x < out@.len() ==> block_matches(#[trigger] out@[x]@, raws[x])
                        && out@[x]@.selectors.len() >= 1,
            decreases nc - ci,
        {
            proof {
                assert(chunksv[ci as int] == chunks@[ci as int]@);
            }
            let is_root = match find_sub_exec(chunks[ci].as_slice(), 0, root_pat.as_slice()) {
                Some(_) => true,
                None => false,
            };
            if !is_root {
                match StyleBlock::from_str(chunks[ci].as_slice()) {
                    Ok(b) => {
                        let ghost outv0 = out@;
                        out.push(b);
                        proof {
                            raws = raws.push(spec_style_block(chunksv[ci as int])->Ok_0);
                            assert forall|x: int| 0 <= x < out@.len() implies block_matches(
                                #[trigger] out@[x]@,
                                raws[x],
                            ) && out@[x]@.selectors.len() >= 1 by {
                                if x < outv0.len() {
                                    assert(out@[x] == outv0[x]);
                                }
                            }
                        }
                    },
                    Err(_) => {},
                }
            }
            ci = ci + 1;
        }
        proof {
            assert(collect_blocks(chunksv, nc as int, raws) == raws);
            assert(raws == target);
        }
        out
    }
}

} // verus!
