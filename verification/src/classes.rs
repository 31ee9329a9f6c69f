//! The class-list builder.
//!
//! Merges static and conditional class-name fragments into one deduplicated,
//! order-preserving, whitespace-joined class string. Empty or whitespace-only
//! fragments are dropped, a fragment guarded by a false condition contributes
//! nothing, and a class name that appears twice keeps its first occurrence.

use vstd::prelude::*;

verus! {

/// One class fragment: a static name, or a name guarded by a condition.
#[derive(Debug, PartialEq, Eq)]
pub enum ClassFragment {
    Static { text: String },
    Cond { cond: bool, text: String },
}

#[verifier::ext_equal]
pub enum ClassFragV {
    Static { text: Seq<char> },
    Cond { cond: bool, text: Seq<char> },
}

impl View for ClassFragment {
    type V = ClassFragV;

    open spec fn view(&self) -> ClassFragV {
        match self {
            ClassFragment::Static { text } => ClassFragV::Static { text: text@ },
            ClassFragment::Cond { cond, text } => ClassFragV::Cond { cond: *cond, text: text@ },
        }
    }
}

pub open spec fn frags_view(fs: Seq<ClassFragment>) -> Seq<ClassFragV> {
    Seq::new(fs.len(), |i: int| fs[i]@)
}

pub open spec fn strs_view(ss: Seq<String>) -> Seq<Seq<char>> {
    Seq::new(ss.len(), |i: int| ss[i]@)
}

/// Empty or whitespace-only text.
pub open spec fn is_blank(s: Seq<char>) -> bool {
    forall|i: int|
        0 <= i < s.len() ==> (s[i] == ' ' || s[i] == '\t' || s[i] == '\n' || s[i] == '\r')
}

/// What one fragment contributes: its text, unless it is blank or guarded by
/// a false condition.
pub open spec fn frag_text(f: ClassFragV) -> Option<Seq<char>> {
    match f {
        ClassFragV::Static { text } => if is_blank(text) {
            None
        } else {
            Some(text)
        },
        ClassFragV::Cond { cond, text } => if cond && !is_blank(text) {
            Some(text)
        } else {
            None
        },
    }
}

/// The surviving texts from `k` on, in source order.
pub open spec fn kept_texts(fs: Seq<ClassFragV>, k: int) -> Seq<Seq<char>>
    decreases fs.len() - k,
{
    if !(0 <= k < fs.len()) {
        Seq::empty()
    } else {
        let rest = kept_texts(fs, k + 1);
        match frag_text(fs[k]) {
            Some(t) => seq![t] + rest,
            None => rest,
        }
    }
}

/// Keep-first deduplication from `k` on: a text equal to an earlier one is
/// dropped.
pub open spec fn dedup_texts(ss: Seq<Seq<char>>, k: int) -> Seq<Seq<char>>
    decreases ss.len() - k,
{
    if !(0 <= k < ss.len()) {
        Seq::empty()
    } else {
        let rest = dedup_texts(ss, k + 1);
        if exists|j: int| 0 <= j < k && #[trigger] ss[j] == ss[k] {
            rest
        } else {
            seq![ss[k]] + rest
        }
    }
}

/// Joins the texts from `k` on with single spaces.
pub open spec fn join_spaces(ss: Seq<Seq<char>>, k: int) -> Seq<char>
    decreases ss.len() - k,
{
    if !(0 <= k < ss.len()) {
        Seq::empty()
    } else if k + 1 == ss.len() {
        ss[k]
    } else {
        ss[k] + seq![' '] + join_spaces(ss, k + 1)
    }
}

/// The merged class string for a fragment list.
pub open spec fn class_list_spec(fs: Seq<ClassFragV>) -> Seq<char> {
    join_spaces(dedup_texts(kept_texts(fs, 0), 0), 0)
}

/// Is this class text blank?
pub fn text_is_blank(s: &String) -> (r: bool)
    ensures
        r == is_blank(s@),
{
    let st = s.as_str();
    let n = st.unicode_len();
    let mut i: usize = 0;
    while i < n
        invariant
            i <= n,
            n == s@.len(),
            st@ == s@,
            forall|j: int|
                0 <= j < i ==> (s@[j] == ' ' || s@[j] == '\t' || s@[j] == '\n' || s@[j] == '\r'),
        decreases n - i,
    {
        let c = st.get_char(i);
        if !(c == ' ' || c == '\t' || c == '\n' || c == '\r') {
            return false;
        }
        i = i + 1;
    }
    true
}

/// The surviving texts from `k` on.
fn collect_kept(fs: &Vec<ClassFragment>, k: usize) -> (r: Vec<String>)
    requires
        k <= fs@.len(),
    ensures
        strs_view(r@) == kept_texts(frags_view(fs@), k as int),
    decreases fs@.len() - k,
{
    if k >= fs.len() {
        proof {
            assert(strs_view(Seq::<String>::empty()) =~= Seq::<Seq<char>>::empty());
        }
        Vec::new()
    } else {
        let rest = collect_kept(fs, k + 1);
        let contributed: Option<String> = match &fs[k] {
            ClassFragment::Static { text } => {
                if text_is_blank(text) {
                    None
                } else {
                    Some(text.clone())
                }
            },
            ClassFragment::Cond { cond, text } => {
                if *cond && !text_is_blank(text) {
                    Some(text.clone())
                } else {
                    None
                }
            },
        };
        match contributed {
            Some(t) => {
                let mut out = vec![t];
                let mut restv = rest;
                let ghost rest0 = restv@;
                out.append(&mut restv);
                proof {
                    assert(strs_view(out@) =~= kept_texts(frags_view(fs@), k as int));
                }
                out
            },
            None => rest,
        }
    }
}

/// Keep-first deduplication from `k` on.
fn dedup_kept(ss: &Vec<String>, k: usize) -> (r: Vec<String>)
    requires
        k <= ss@.len(),
    ensures
        strs_view(r@) == dedup_texts(strs_view(ss@), k as int),
    decreases ss@.len() - k,
{
    if k >= ss.len() {
        proof {
            assert(strs_view(Seq::<String>::empty()) =~= Seq::<Seq<char>>::empty());
        }
        Vec::new()
    } else {
        let rest = dedup_kept(ss, k + 1);
        let mut dup = false;
        let mut j: usize = 0;
        while j < k
            invariant
                j <= k < ss@.len(),
                dup == exists|l: int|
                    0 <= l < j && #[trigger] strs_view(ss@)[l] == strs_view(ss@)[k as int],
            decreases k - j,
        {
            if ss[j] == ss[k] {
                dup = true;
                proof {
                    assert(strs_view(ss@)[j as int] == strs_view(ss@)[k as int]);
                }
            }
            j = j + 1;
        }
        if dup {
            rest
        } else {
            let mut out = vec![ss[k].clone()];
            let mut restv = rest;
            out.append(&mut restv);
            proof {
                assert(strs_view(out@) =~= dedup_texts(strs_view(ss@), k as int));
            }
            out
        }
    }
}

/// Space-joins the texts from `k` on.
fn join_kept(ss: &Vec<String>, k: usize) -> (r: String)
    requires
        k <= ss@.len(),
    ensures
        r@ == join_spaces(strs_view(ss@), k as int),
    decreases ss@.len() - k,
{
    if k >= ss.len() {
        String::new()
    } else if k + 1 == ss.len() {
        ss[k].clone()
    } else {
        let rest = join_kept(ss, k + 1);
        let head = ss[k].clone();
        let joined = head.concat(" ").concat(rest.as_str());
        proof {
            reveal_strlit(" ");
            assert(joined@ =~= join_spaces(strs_view(ss@), k as int));
        }
        joined
    }
}

/// Builds the merged class string: blanks dropped, false guards dropped,
/// duplicates collapsed to their first occurrence, survivors joined with
/// single spaces in source order.
pub fn build_class_list(fs: &Vec<ClassFragment>) -> (r: String)
    ensures
        r@ == class_list_spec(frags_view(fs@)),
{
    let kept = collect_kept(fs, 0);
    let unique = dedup_kept(&kept, 0);
    join_kept(&unique, 0)
}

} // verus!
