//! The hook runner's decisions: where a theme's hook scripts live, and the
//! order they run in. Listing the directory and spawning the scripts stay
//! with the caller; the order — ascending by file name — is proved here.

use vstd::multiset::Multiset;
use vstd::prelude::*;

use crate::theme::{theme_chars, Theme};

verus! {

/// Lexicographic comparison of `a` and `b` by code point, starting at
/// position `i`: a string that runs out first comes first.
pub open spec fn lex_le_from(a: Seq<char>, b: Seq<char>, i: int) -> bool
    decreases a.len() - i,
{
    if i >= a.len() {
        true
    } else if i >= b.len() {
        false
    } else if (a[i] as int) < (b[i] as int) {
        true
    } else if (a[i] as int) > (b[i] as int) {
        false
    } else {
        lex_le_from(a, b, i + 1)
    }
}

/// `a` comes at or before `b` in lexicographic order.
pub open spec fn lex_le(a: Seq<char>, b: Seq<char>) -> bool {
    lex_le_from(a, b, 0)
}

/// Lexicographic order is reflexive.
pub proof fn lemma_lex_refl(a: Seq<char>, i: int)
    requires
        0 <= i,
    ensures
        lex_le_from(a, a, i),
    decreases a.len() - i,
{
    if i < a.len() {
        lemma_lex_refl(a, i + 1);
    }
}

/// Lexicographic order is total.
pub proof fn lemma_lex_total(a: Seq<char>, b: Seq<char>, i: int)
    requires
        0 <= i,
    ensures
        lex_le_from(a, b, i) || lex_le_from(b, a, i),
    decreases a.len() + b.len() - i,
{
    if i < a.len() && i < b.len() && a[i] == b[i] {
        lemma_lex_total(a, b, i + 1);
    }
}

/// Lexicographic order is transitive.
pub proof fn lemma_lex_trans(a: Seq<char>, b: Seq<char>, c: Seq<char>, i: int)
    requires
        0 <= i,
        lex_le_from(a, b, i),
        lex_le_from(b, c, i),
    ensures
        lex_le_from(a, c, i),
    decreases a.len() - i,
{
    if i < a.len() {
        if i < b.len() && i < c.len() && a[i] == b[i] && b[i] == c[i] {
            lemma_lex_trans(a, b, c, i + 1);
        }
    }
}

/// Is `a` at or before `b` in lexicographic order?
pub fn str_le(a: &str, b: &str) -> (r: bool)
    ensures
        r == lex_le(a@, b@),
{
    let la = a.unicode_len();
    let lb = b.unicode_len();
    let mut i: usize = 0;
    loop
        invariant
            la == a@.len(),
            lb == b@.len(),
            0 <= i <= la,
            i <= lb,
            lex_le(a@, b@) == lex_le_from(a@, b@, i as int),
        decreases la - i,
    {
        if i == la {
            return true;
        }
        if i == lb {
            return false;
        }
        let ca = a.get_char(i);
        let cb = b.get_char(i);
        if ca == cb {
            i = i + 1;
        } else {
            let na = ca as u32;
            let nb = cb as u32;
            return na < nb;
        }
    }
}

/// Sorts the file names of a hook directory into the order the scripts run
/// in: ascending by name, keeping every name exactly as often as it came in.
pub fn sort_names(names: &Vec<String>) -> (r: Vec<String>)
    ensures
        r@.len() == names@.len(),
        forall|i: int, j: int|
            0 <= i < j < r@.len() ==> #[trigger] lex_le(r.deep_view()[i], r.deep_view()[j]),
        r.deep_view().to_multiset() == names.deep_view().to_multiset(),
{
    broadcast use vstd::seq_lib::group_to_multiset_ensures;
    broadcast use vstd::multiset::group_multiset_axioms;

    let mut w = names.clone();
    let mut r: Vec<String> = Vec::new();
    proof {
        assert(w.deep_view() =~= names.deep_view());
        assert(r.deep_view() =~= Seq::<Seq<char>>::empty());
        assert(r.deep_view().to_multiset().add(w.deep_view().to_multiset())
            =~= names.deep_view().to_multiset());
    }
    while w.len() > 0
        invariant
            r@.len() + w@.len() == names@.len(),
            r.deep_view().to_multiset().add(w.deep_view().to_multiset())
                == names.deep_view().to_multiset(),
            forall|i: int, j: int|
                0 <= i < j < r@.len() ==> #[trigger] lex_le(r.deep_view()[i], r.deep_view()[j]),
            forall|i: int, j: int|
                0 <= i < r@.len() && 0 <= j < w@.len() ==> #[trigger] lex_le(
                    r.deep_view()[i],
                    w.deep_view()[j],
                ),
        decreases w@.len(),
    {
        let mut mi: usize = 0;
        let mut k: usize = 1;
        proof {
            lemma_lex_refl(w.deep_view()[0], 0);
        }
        while k < w.len()
            invariant
                w@.len() > 0,
                0 <= mi < k <= w@.len(),
                forall|j: int| 0 <= j < k ==> #[trigger] lex_le(w.deep_view()[mi as int], w.deep_view()[j]),
            decreases w@.len() - k,
        {
            let ghost old_mi = mi as int;
            if str_le(w[k].as_str(), w[mi].as_str()) {
                mi = k;
                proof {
                    assert forall|j: int| 0 <= j < k + 1 implies #[trigger] lex_le(
                        w.deep_view()[mi as int],
                        w.deep_view()[j],
                    ) by {
                        if j < k {
                            assert(lex_le(w.deep_view()[old_mi], w.deep_view()[j]));
                            lemma_lex_trans(
                                w.deep_view()[mi as int],
                                w.deep_view()[old_mi],
                                w.deep_view()[j],
                                0,
                            );
                        } else {
                            lemma_lex_refl(w.deep_view()[mi as int], 0);
                        }
                    }
                }
            } else {
                proof {
                    lemma_lex_total(w.deep_view()[mi as int], w.deep_view()[k as int], 0);
                }
            }
            k = k + 1;
        }
        let ghost old_w = w.deep_view();
        let ghost old_r = r.deep_view();
        let x = w.remove(mi);
        r.push(x);
        proof {
            old_w.remove_ensures(mi as int);
            assert(w.deep_view() =~= old_w.remove(mi as int));
            assert(r.deep_view() =~= old_r.push(old_w[mi as int]));
            vstd::seq_lib::to_multiset_remove(old_w, mi as int);
            vstd::seq_lib::to_multiset_build(old_r, old_w[mi as int]);
            vstd::seq_lib::to_multiset_contains(old_w, old_w[mi as int]);
            assert(old_w.to_multiset().count(old_w[mi as int]) > 0) by {
                assert(old_w.contains(old_w[mi as int]));
            }
            assert(r.deep_view().to_multiset().add(w.deep_view().to_multiset())
                =~= old_r.to_multiset().add(old_w.to_multiset()));
            assert forall|i: int, j: int|
                0 <= i < r@.len() && 0 <= j < w@.len() implies #[trigger] lex_le(
                r.deep_view()[i],
                w.deep_view()[j],
            ) by {
                if i < old_r.len() {
                    if j < mi {
                        assert(lex_le(old_r[i], old_w[j]));
                    } else {
                        assert(lex_le(old_r[i], old_w[j + 1]));
                    }
                } else {
                    if j < mi {
                        assert(lex_le(old_w[mi as int], old_w[j]));
                    } else {
                        assert(lex_le(old_w[mi as int], old_w[j + 1]));
                    }
                }
            }
            assert forall|i: int, j: int| 0 <= i < j < r@.len() implies #[trigger] lex_le(
                r.deep_view()[i],
                r.deep_view()[j],
            ) by {
                if j < old_r.len() {
                    assert(lex_le(old_r[i], old_r[j]));
                } else {
                    assert(lex_le(old_r[i], old_w[mi as int]));
                }
            }
        }
    }
    proof {
        assert(w.deep_view() =~= Seq::<Seq<char>>::empty());
        assert(w.deep_view().to_multiset() =~= Multiset::<Seq<char>>::empty());
        assert(r.deep_view().to_multiset().add(Multiset::<Seq<char>>::empty())
            =~= r.deep_view().to_multiset());
    }
    r
}

/// The directory whose executable files run when `theme` is applied.
pub fn hook_dir(config_dir: &str, theme: &Theme) -> (r: String)
    ensures
        r@ == config_dir@ + "/kswitch/"@ + theme_chars(*theme),
{
    let mut out = config_dir.to_owned();
    out.append("/kswitch/");
    match theme {
        Theme::Light => out.append("light"),
        Theme::Dark => out.append("dark"),
    }
    out
}

} // verus!
