//! What the command-line tool reads from its arguments, the configurations it
//! builds, and the trimming of a pretty-printed value down to the lines that
//! hold something.
use crate::text::{
    chars_of, is_nonempty, join_with, lemma_filter_from, lemma_split_join, lemma_split_on_pieces_free,
    spec_contains, split_on, str_contains, str_eq, substring,
};
use crate::vcproj::{empty_files, Configuration, Files, VCProject};
use vstd::prelude::*;

verus! {

/// The arguments of the command-line tool: the solution file, and the project to build.
#[derive(Debug)]
pub struct Cli {
    pub sln_path: String,
    pub project_name: String,
}

/// A line without the carriage return that ends it, if any.
pub open spec fn strip_cr(l: Seq<char>) -> Seq<char> {
    if l.len() > 0 && l.last() == '\r' {
        l.drop_last()
    } else {
        l
    }
}

/// The lines of `s`: the pieces between line feeds, each ended by a line feed
/// losing a carriage return before it; a last piece that is empty is no line.
pub open spec fn spec_lines(s: Seq<char>) -> Seq<Seq<char>> {
    let pieces = split_on(s, '\n');
    let body = pieces.drop_last().map_values(|l: Seq<char>| strip_cr(l));
    if is_nonempty(pieces.last()) {
        body.push(pieces.last())
    } else {
        body
    }
}

/// The lines `ls` joined with line feeds between them.
pub open spec fn join_lines(ls: Seq<Seq<char>>) -> Seq<char> {
    join_with(ls, '\n')
}

/// A line that holds something: it does not mention `None`.
pub open spec fn keeps_line(l: Seq<char>) -> bool {
    !spec_contains(l, "None"@)
}

/// The lines of `ls` that hold something, in their order.
pub open spec fn kept_lines(ls: Seq<Seq<char>>) -> Seq<Seq<char>> {
    ls.filter(|l: Seq<char>| keeps_line(l))
}

/// The text `s` without the lines that mention `None`.
pub open spec fn spec_skip_nones(s: Seq<char>) -> Seq<char> {
    join_lines(kept_lines(spec_lines(s)))
}

proof fn lemma_kept_step(ls: Seq<Seq<char>>, k: int)
    requires
        0 <= k < ls.len(),
    ensures
        kept_lines(ls.take(k + 1)) == (if keeps_line(ls[k]) {
            kept_lines(ls.take(k)).push(ls[k])
        } else {
            kept_lines(ls.take(k))
        }),
{
    reveal_with_fuel(Seq::filter, 1);
    assert(ls.take(k + 1).drop_last() =~= ls.take(k));
    assert(ls.take(k + 1).last() == ls[k]);
}

proof fn lemma_join_push(ls: Seq<Seq<char>>, l: Seq<char>)
    ensures
        join_lines(ls.push(l)) == (if ls.len() == 0 {
            l
        } else {
            join_lines(ls) + seq!['\n'] + l
        }),
{
    assert(ls.push(l).drop_last() =~= ls);
}

proof fn lemma_lines_free(s: Seq<char>)
    ensures
        forall|k: int| 0 <= k < spec_lines(s).len() ==> !(#[trigger] spec_lines(s)[k]).contains('\n'),
{
    let pieces = split_on(s, '\n');
    lemma_split_on_pieces_free(s, '\n');
    crate::text::lemma_split_on_nonempty(s, '\n');
    assert forall|k: int| 0 <= k < spec_lines(s).len() implies !(#[trigger] spec_lines(s)[k]).contains('\n') by {
        let l = spec_lines(s)[k];
        if k < pieces.len() - 1 {
            assert(l == strip_cr(pieces[k]));
            assert(!pieces[k].contains('\n'));
            if pieces[k].len() > 0 && pieces[k].last() == '\r' {
                assert forall|j: int| 0 <= j < l.len() implies l[j] != '\n' by {
                    assert(l[j] == pieces[k][j]);
                }
            }
        } else {
            assert(l == pieces[pieces.len() - 1]);
        }
    }
}

proof fn lemma_strip_cr_keeps(l: Seq<char>)
    requires
        keeps_line(l),
    ensures
        keeps_line(strip_cr(l)),
{
    let n = "None"@;
    if spec_contains(strip_cr(l), n) {
        let k = choose|k: int|
            0 <= k && k + n.len() <= strip_cr(l).len() && #[trigger] strip_cr(l).subrange(k, k + n.len()) == n;
        assert(l.subrange(k, k + n.len()) =~= strip_cr(l).subrange(k, k + n.len()));
    }
}

/// No line of what `skip_nones` gives mentions `None`.
pub proof fn law_skip_nones_lines(s: Seq<char>)
    ensures
        forall|k: int|
            0 <= k < spec_lines(spec_skip_nones(s)).len() ==> !spec_contains(
                #[trigger] spec_lines(spec_skip_nones(s))[k],
                "None"@,
            ),
{
    let ls = spec_lines(s);
    let kept = kept_lines(ls);
    let out = spec_skip_nones(s);
    lemma_lines_free(s);
    lemma_filter_from(ls, |l: Seq<char>| keeps_line(l));
    assert forall|k: int| 0 <= k < kept.len() implies !(#[trigger] kept[k]).contains('\n') && keeps_line(kept[k]) by {
        ls.lemma_filter_pred(|l: Seq<char>| keeps_line(l), k);
        let j = choose|j: int| 0 <= j < ls.len() && ls[j] == kept[k];
        assert(!ls[j].contains('\n'));
    }
    if kept.len() == 0 {
        assert(out =~= Seq::<char>::empty());
        assert(split_on(out, '\n') =~= seq![Seq::<char>::empty()]);
        assert(spec_lines(out) =~= Seq::<Seq<char>>::empty());
    } else {
        lemma_split_join(kept, '\n');
        assert forall|k: int| 0 <= k < spec_lines(out).len() implies !spec_contains(
            #[trigger] spec_lines(out)[k],
            "None"@,
        ) by {
            if k < kept.len() - 1 {
                assert(spec_lines(out)[k] == strip_cr(kept[k]));
                lemma_strip_cr_keeps(kept[k]);
            } else {
                assert(spec_lines(out)[k] == kept[kept.len() - 1]);
            }
        }
    }
}

/// A configuration that the tool builds: `Release|Win32` or `Master Gold|Win32`.
pub open spec fn is_built_configuration(name: Seq<char>) -> bool {
    name == "Release|Win32"@ || name == "Master Gold|Win32"@
}

/// The configurations of `cs` that the tool builds, in order.
pub open spec fn built_configurations(cs: Seq<Configuration>) -> Seq<Configuration> {
    cs.filter(|c: Configuration| is_built_configuration(c.name@))
}

/// The configurations kept are exactly those named `Release|Win32` or
/// `Master Gold|Win32`: every one kept has one of those two names, every one
/// with one of them is kept, and no other name is let through.
pub proof fn law_built_configurations_named(cs: Seq<Configuration>)
    ensures
        forall|k: int|
            0 <= k < built_configurations(cs).len() ==> {
                let n = (#[trigger] built_configurations(cs)[k]).name@;
                n == "Release|Win32"@ || n == "Master Gold|Win32"@
            },
        forall|k: int|
            0 <= k < cs.len() && ((#[trigger] cs[k]).name@ == "Release|Win32"@ || cs[k].name@
                == "Master Gold|Win32"@) ==> built_configurations(cs).contains(cs[k]),
        forall|k: int|
            0 <= k < cs.len() && (#[trigger] cs[k]).name@ != "Release|Win32"@ && cs[k].name@
                != "Master Gold|Win32"@ ==> !built_configurations(cs).contains(cs[k]),
{
    let pred = |c: Configuration| is_built_configuration(c.name@);
    assert forall|k: int| 0 <= k < built_configurations(cs).len() implies {
        let n = (#[trigger] built_configurations(cs)[k]).name@;
        n == "Release|Win32"@ || n == "Master Gold|Win32"@
    } by {
        cs.lemma_filter_pred(pred, k);
    }
    assert forall|k: int|
        0 <= k < cs.len() && ((#[trigger] cs[k]).name@ == "Release|Win32"@ || cs[k].name@
            == "Master Gold|Win32"@) implies built_configurations(cs).contains(cs[k]) by {
        cs.lemma_filter_contains(pred, k);
    }
    assert forall|k: int|
        0 <= k < cs.len() && (#[trigger] cs[k]).name@ != "Release|Win32"@ && cs[k].name@
            != "Master Gold|Win32"@ implies !built_configurations(cs).contains(cs[k]) by {
        if built_configurations(cs).contains(cs[k]) {
            let q = choose|q: int|
                0 <= q < built_configurations(cs).len() && built_configurations(cs)[q] == cs[k];
            cs.lemma_filter_pred(pred, q);
        }
    }
}

/// Keeping the built configurations of what was kept keeps all of it.
pub proof fn law_built_configurations_again(cs: Seq<Configuration>)
    ensures
        built_configurations(built_configurations(cs)) == built_configurations(cs),
    decreases cs.len(),
{
    reveal_with_fuel(Seq::filter, 1);
    if cs.len() > 0 {
        law_built_configurations_again(cs.drop_last());
        let kept = built_configurations(cs.drop_last());
        if is_built_configuration(cs.last().name@) {
            assert(kept.push(cs.last()).drop_last() =~= kept);
        }
    }
}

/// Keeps the configurations of `p` that the tool builds, in their order, and
/// drops its platforms and its file tree; the attributes stay as they are.
pub fn keep_built_configurations(p: &mut VCProject)
    ensures
        final(p).configurations@ == built_configurations(old(p).configurations@),
        final(p).platforms@.len() == 0,
        final(p).files.model() == empty_files(),
        final(p).name == old(p).name,
        final(p).project_type == old(p).project_type,
        final(p).version == old(p).version,
        final(p).guid == old(p).guid,
        final(p).root_namespace == old(p).root_namespace,
        final(p).keyword == old(p).keyword,
        final(p).target_framework_version == old(p).target_framework_version,
{
    let mut all: Vec<Configuration> = Vec::new();
    std::mem::swap(&mut all, &mut p.configurations);
    let ghost orig = all@;
    let mut kept: Vec<Configuration> = Vec::new();
    proof {
        reveal_with_fuel(Seq::filter, 1);
        assert(orig.take(0) =~= Seq::<Configuration>::empty());
        assert(orig.skip(0) =~= orig);
    }
    while all.len() > 0
        invariant
            all@.len() <= orig.len(),
            all@ == orig.skip(orig.len() - all@.len()),
            kept@ == built_configurations(orig.take(orig.len() - all@.len())),
        decreases all@.len(),
    {
        let ghost k: int = orig.len() - all@.len();
        let c = all.remove(0);
        proof {
            reveal_with_fuel(Seq::filter, 1);
            assert(c == orig[k]);
            assert(orig.take(k + 1).drop_last() =~= orig.take(k));
            assert(orig.take(k + 1).last() == orig[k]);
            assert(all@ =~= orig.skip(k + 1));
        }
        if str_eq(c.name.as_str(), "Release|Win32") || str_eq(c.name.as_str(), "Master Gold|Win32") {
            kept.push(c);
        }
    }
    proof {
        assert(orig.take(orig.len() as int) =~= orig);
    }
    p.configurations = kept;
    p.platforms = Vec::new();
    p.files = Files::new();
}

fn without_cr(s: &str, from: usize, to: usize) -> (r: String)
    requires
        from <= to <= s@.len(),
    ensures
        r@ == strip_cr(s@.subrange(from as int, to as int)),
{
    let c = chars_of(s);
    if from < to && c[to - 1] == '\r' {
        let r = substring(s, from, to - 1);
        assert(s@.subrange(from as int, to as int).drop_last() =~= s@.subrange(from as int, to - 1));
        r
    } else {
        substring(s, from, to)
    }
}

/// The lines of `s`.
pub fn lines(s: &str) -> (r: Vec<String>)
    ensures
        r.deep_view() == spec_lines(s@),
{
    let c = chars_of(s);
    let mut res: Vec<String> = Vec::new();
    let ghost mut done: Seq<Seq<char>> = Seq::empty();
    let mut start: usize = 0;
    let mut k: usize = 0;
    proof {
        assert(c@.take(0) =~= Seq::<char>::empty());
        assert(c@.subrange(0, 0) =~= Seq::<char>::empty());
        assert(done.push(Seq::<char>::empty()) =~= seq![Seq::<char>::empty()]);
        assert(res.deep_view() =~= done.map_values(|l: Seq<char>| strip_cr(l)));
    }
    while k < c.len()
        invariant
            c@ == s@,
            start <= k <= c@.len(),
            split_on(c@.take(k as int), '\n') == done.push(c@.subrange(start as int, k as int)),
            res.deep_view() == done.map_values(|l: Seq<char>| strip_cr(l)),
        decreases c@.len() - k,
    {
        let ghost cur = c@.subrange(start as int, k as int);
        assert(c@.take(k + 1).drop_last() =~= c@.take(k as int));
        assert(c@.take(k + 1).last() == c@[k as int]);
        if c[k] == '\n' {
            let ghost old_done = done;
            let line = without_cr(s, start, k);
            let ghost old_res = res.deep_view();
            res.push(line);
            proof {
                assert(res.deep_view() =~= old_res.push(strip_cr(cur)));
                assert(done.push(cur).map_values(|l: Seq<char>| strip_cr(l))
                    =~= done.map_values(|l: Seq<char>| strip_cr(l)).push(strip_cr(cur)));
                done = done.push(cur);
                assert(c@.subrange((k + 1) as int, (k + 1) as int) =~= Seq::<char>::empty());
            }
            start = k + 1;
        } else {
            proof {
                assert(c@.subrange(start as int, k + 1) =~= cur.push(c@[k as int]));
                assert(done.push(cur).update(done.len() as int, cur.push(c@[k as int]))
                    =~= done.push(cur.push(c@[k as int])));
            }
        }
        k = k + 1;
    }
    let ghost cur = c@.subrange(start as int, k as int);
    proof {
        assert(c@.take(k as int) =~= c@);
        assert(done.push(cur).drop_last() =~= done);
    }
    if start < k {
        let last = substring(s, start, k);
        let ghost old_res = res.deep_view();
        res.push(last);
        assert(res.deep_view() =~= old_res.push(cur));
    }
    res
}

/// The pretty-printed text `formatted` without the lines that mention `None`.
pub fn skip_nones(formatted: &str) -> (r: String)
    ensures
        r@ == spec_skip_nones(formatted@),
{
    let ls = lines(formatted);
    let ghost all = ls.deep_view();
    let mut out = String::new();
    let mut empty = true;
    let mut k: usize = 0;
    proof {
        reveal_with_fuel(Seq::filter, 1);
        assert(all.take(0) =~= Seq::<Seq<char>>::empty());
    }
    while k < ls.len()
        invariant
            k <= ls@.len(),
            all == ls.deep_view(),
            out@ == join_lines(kept_lines(all.take(k as int))),
            empty == (kept_lines(all.take(k as int)).len() == 0),
        decreases ls@.len() - k,
    {
        let line = &ls[k];
        proof {
            lemma_kept_step(all, k as int);
            assert(all[k as int] == line@);
        }
        if !str_contains(line.as_str(), "None") {
            let ghost before = out@;
            if !empty {
                out.append("\n");
            }
            out.append(line.as_str());
            empty = false;
            proof {
                reveal_strlit("\n");
                lemma_join_push(kept_lines(all.take(k as int)), line@);
                if kept_lines(all.take(k as int)).len() == 0 {
                    assert(out@ =~= line@);
                } else {
                    assert(out@ =~= before + seq!['\n'] + line@);
                }
            }
        }
        k = k + 1;
    }
    assert(all.take(ls@.len() as int) =~= all);
    out
}

} // verus!
