use vstd::prelude::*;
use vstd::string::StrSliceExecFns;
use vstd::string::StringExecFns;
use crate::text::{join_text, join_with, split_on, split_text, views};
use crate::types::contains_name;

verus! {

/// A path segment of the form `{name}`.
pub open spec fn is_placeholder(seg: Seq<char>) -> bool {
    seg.len() > 0 && seg[0] == '{' && seg.last() == '}'
}

/// The name inside a placeholder's braces.
pub open spec fn placeholder_name(seg: Seq<char>) -> Seq<char> {
    seg.subrange(1, seg.len() - 1)
}

/// The names of the placeholders among `segs`, left to right.
pub open spec fn placeholders_of(segs: Seq<Seq<char>>) -> Seq<Seq<char>>
    decreases segs.len(),
{
    if segs.len() == 0 {
        Seq::<Seq<char>>::empty()
    } else if is_placeholder(segs.last()) {
        placeholders_of(segs.drop_last()).push(placeholder_name(segs.last()))
    } else {
        placeholders_of(segs.drop_last())
    }
}

/// The parameter names of a path template, left to right.
pub open spec fn path_params(path: Seq<char>) -> Seq<Seq<char>> {
    placeholders_of(split_on(path, '/'))
}

/// `names` with every repeat dropped: the first occurrence of each name
/// stays, in order.
pub open spec fn unique_names(names: Seq<Seq<char>>) -> Seq<Seq<char>>
    decreases names.len(),
{
    if names.len() == 0 {
        Seq::<Seq<char>>::empty()
    } else {
        let prev = unique_names(names.drop_last());
        if prev.contains(names.last()) {
            prev
        } else {
            prev.push(names.last())
        }
    }
}

/// The distinct parameter names of a path template, in the order of their
/// first occurrence.
pub open spec fn unique_path_params(path: Seq<char>) -> Seq<Seq<char>> {
    unique_names(path_params(path))
}

/// The names kept hold no repeat and are exactly the names given.
pub proof fn lemma_unique_names(names: Seq<Seq<char>>)
    ensures
        unique_names(names).no_duplicates(),
        forall|n: Seq<char>| #[trigger] unique_names(names).contains(n) <==> names.contains(n),
        unique_names(names).len() <= names.len(),
        names.len() > 0 ==> unique_names(names).len() > 0,
    decreases names.len(),
{
    if names.len() > 0 {
        let rest = names.drop_last();
        lemma_unique_names(rest);
        let prev = unique_names(rest);
        assert forall|n: Seq<char>| #[trigger] unique_names(names).contains(n) <==> names.contains(n) by {
            if names.contains(n) && n != names.last() {
                let k = choose|k: int| 0 <= k < names.len() && names[k] == n;
                assert(rest[k] == n);
            }
            if rest.contains(n) {
                let k = choose|k: int| 0 <= k < rest.len() && rest[k] == n;
                assert(names[k] == n);
            }
            if !prev.contains(names.last()) {
                assert(prev.push(names.last())[prev.len() as int] == names.last());
                if prev.contains(n) {
                    let k = choose|k: int| 0 <= k < prev.len() && prev[k] == n;
                    assert(prev.push(names.last())[k] == n);
                }
                if prev.push(names.last()).contains(n) && n != names.last() {
                    let k = choose|k: int| 0 <= k < prev.len() + 1 && prev.push(names.last())[k] == n;
                    assert(prev[k] == n);
                }
            }
            assert(names[names.len() - 1] == names.last());
        }
        if prev.contains(names.last()) {
            assert(prev.len() > 0);
        }
    }
}

/// A segment that stands for itself: not empty and not opening a placeholder.
pub open spec fn is_literal(seg: Seq<char>) -> bool {
    seg.len() > 0 && seg[0] != '{'
}

pub open spec fn literals_of(segs: Seq<Seq<char>>) -> Seq<Seq<char>>
    decreases segs.len(),
{
    if segs.len() == 0 {
        Seq::<Seq<char>>::empty()
    } else if is_literal(segs.last()) {
        literals_of(segs.drop_last()).push(segs.last())
    } else {
        literals_of(segs.drop_last())
    }
}

/// The name derived from a path: its literal segments joined with `_`.
pub open spec fn fallback_name(path: Seq<char>) -> Seq<char> {
    join_with(literals_of(split_on(path, '/')), "_"@)
}

/// A segment as it stands in the URL template: a placeholder `{p}` becomes
/// the interpolation `${p}`.
pub open spec fn template_segment(seg: Seq<char>) -> Seq<char> {
    if is_placeholder(seg) {
        seq!['$'] + seg
    } else {
        seg
    }
}

pub open spec fn templates_of(segs: Seq<Seq<char>>) -> Seq<Seq<char>>
    decreases segs.len(),
{
    if segs.len() == 0 {
        Seq::<Seq<char>>::empty()
    } else {
        templates_of(segs.drop_last()).push(template_segment(segs.last()))
    }
}

/// The path with every placeholder turned into an interpolation.
pub open spec fn url_template(path: Seq<char>) -> Seq<char> {
    join_with(templates_of(split_on(path, '/')), "/"@)
}

/// The names of the `{name}` segments of `path`, left to right.
pub fn extract_path_params(path: &str) -> (r: Vec<String>)
    ensures
        views(r@) == path_params(path@),
{
    let segs = split_text(path, '/');
    let mut params: Vec<String> = Vec::new();
    let mut i: usize = 0;
    while i < segs.len()
        invariant
            i <= segs@.len(),
            views(segs@) == split_on(path@, '/'),
            views(params@) == placeholders_of(views(segs@).subrange(0, i as int)),
        decreases segs@.len() - i,
    {
        let ghost done = views(segs@).subrange(0, i + 1);
        assert(done.drop_last() =~= views(segs@).subrange(0, i as int));
        let seg = segs[i].as_str();
        let len = seg.unicode_len();
        assert(done.last() == seg@);
        if len > 0 && seg.get_char(0) == '{' && seg.get_char(len - 1) == '}' {
            params.push(seg.substring_char(1, len - 1).to_owned());
            assert(views(params@) =~= placeholders_of(done));
        }
        i = i + 1;
    }
    assert(views(segs@).subrange(0, segs@.len() as int) =~= views(segs@));
    params
}

/// The distinct names of the `{name}` segments of `path`, in the order of
/// their first occurrence.
pub fn extract_unique_path_params(path: &str) -> (r: Vec<String>)
    ensures
        views(r@) == unique_path_params(path@),
{
    let params = extract_path_params(path);
    let ghost all = views(params@);
    let mut kept: Vec<String> = Vec::new();
    let mut i: usize = 0;
    while i < params.len()
        invariant
            i <= params@.len(),
            all == views(params@),
            all == path_params(path@),
            views(kept@) == unique_names(all.subrange(0, i as int)),
        decreases params@.len() - i,
    {
        let ghost done = all.subrange(0, i + 1);
        assert(done.drop_last() =~= all.subrange(0, i as int));
        assert(done.last() == params@[i as int]@);
        let seen = contains_name(&kept, params[i].as_str());
        assert(seen == views(kept@).contains(params@[i as int]@)) by {
            if seen {
                let k = choose|k: int| 0 <= k < kept@.len() && kept@[k]@ == params@[i as int]@;
                assert(views(kept@)[k] == params@[i as int]@);
            }
            if views(kept@).contains(params@[i as int]@) {
                let k = choose|k: int| 0 <= k < views(kept@).len() && views(kept@)[k] == params@[i as int]@;
                assert(kept@[k]@ == params@[i as int]@);
            }
        }
        if !seen {
            kept.push(params[i].as_str().to_owned());
            assert(views(kept@) =~= unique_names(done));
        }
        i = i + 1;
    }
    assert(all.subrange(0, params@.len() as int) =~= all);
    kept
}

/// The literal segments of `path` joined with `_`.
pub fn path_fallback_name(path: &str) -> (r: String)
    ensures
        r@ == fallback_name(path@),
{
    let segs = split_text(path, '/');
    let mut literals: Vec<String> = Vec::new();
    let mut i: usize = 0;
    while i < segs.len()
        invariant
            i <= segs@.len(),
            views(segs@) == split_on(path@, '/'),
            views(literals@) == literals_of(views(segs@).subrange(0, i as int)),
        decreases segs@.len() - i,
    {
        let ghost done = views(segs@).subrange(0, i + 1);
        assert(done.drop_last() =~= views(segs@).subrange(0, i as int));
        let seg = segs[i].as_str();
        assert(done.last() == seg@);
        if seg.unicode_len() > 0 && seg.get_char(0) != '{' {
            literals.push(seg.to_owned());
            assert(views(literals@) =~= literals_of(done));
        }
        i = i + 1;
    }
    assert(views(segs@).subrange(0, segs@.len() as int) =~= views(segs@));
    join_text(&literals, "_")
}

/// `path` with every `{p}` segment rewritten to `${p}`.
pub fn path_url_template(path: &str) -> (r: String)
    ensures
        r@ == url_template(path@),
{
    let segs = split_text(path, '/');
    let mut out: Vec<String> = Vec::new();
    let mut i: usize = 0;
    while i < segs.len()
        invariant
            i <= segs@.len(),
            views(segs@) == split_on(path@, '/'),
            views(out@) == templates_of(views(segs@).subrange(0, i as int)),
        decreases segs@.len() - i,
    {
        let ghost done = views(segs@).subrange(0, i + 1);
        assert(done.drop_last() =~= views(segs@).subrange(0, i as int));
        let seg = segs[i].as_str();
        let len = seg.unicode_len();
        if len > 0 && seg.get_char(0) == '{' && seg.get_char(len - 1) == '}' {
            let mut t = "$".to_owned();
            t.append(seg);
            proof {
                reveal_strlit("$");
            }
            assert(t@ =~= template_segment(seg@));
            out.push(t);
        } else {
            out.push(seg.to_owned());
        }
        assert(views(segs@)[i as int] == seg@);
        assert(done.last() == seg@);
        assert(views(out@) =~= templates_of(done));
        i = i + 1;
    }
    assert(views(segs@).subrange(0, segs@.len() as int) =~= views(segs@));
    join_text(&out, "/")
}

} // verus!
