//! Filling in the generated Android main activity: names, and injected code at the
//! section markers.

use vstd::prelude::*;

use crate::template::{chars_of, occurs_at, parse_inject_template, parsed, Inject, SECTIONS};

verus! {

/// `t` with every occurrence of the non-empty `from` replaced by `to`, scanning from
/// the left and never letting two replaced occurrences overlap.
pub open spec fn replaced(t: Seq<char>, from: Seq<char>, to: Seq<char>) -> Seq<char>
    decreases t.len(),
{
    if from.len() == 0 || t.len() < from.len() {
        t
    } else if t.subrange(0, from.len() as int) == from {
        to + replaced(t.subrange(from.len() as int, t.len() as int), from, to)
    } else {
        seq![t[0]] + replaced(t.subrange(1, t.len() as int), from, to)
    }
}

/// The sections of all `sources` parsed as inject templates, appended in order.
pub open spec fn merged(sources: Seq<Seq<char>>) -> Seq<Seq<char>>
    decreases sources.len(),
{
    if sources.len() == 0 {
        Seq::new(SECTIONS as nat, |i: int| Seq::<char>::empty())
    } else {
        let m = merged(sources.drop_last());
        let p = parsed(sources.last()).sections;
        Seq::new(SECTIONS as nat, |i: int| m[i] + p[i])
    }
}

/// The activity source with the package and library names filled in and each
/// section marker replaced by the injected code of that section.
pub open spec fn preprocessed(
    java: Seq<char>,
    package_name: Seq<char>,
    library_name: Seq<char>,
    inject: Seq<Seq<char>>,
) -> Seq<char> {
    let r = replaced(java, "TARGET_PACKAGE_NAME"@, package_name);
    let r = replaced(r, "LIBRARY_NAME"@, library_name);
    let r = replaced(r, "//% IMPORTS"@, inject[0]);
    let r = replaced(r, "//% QUAD_SURFACE_ON_CREATE_INPUT_CONNECTION"@, inject[1]);
    let r = replaced(r, "//% MAIN_ACTIVITY_BODY"@, inject[2]);
    let r = replaced(r, "//% MAIN_ACTIVITY_ON_RESUME"@, inject[4]);
    let r = replaced(r, "//% MAIN_ACTIVITY_ON_PAUSE"@, inject[5]);
    let r = replaced(r, "//% MAIN_ACTIVITY_ON_CREATE"@, inject[3]);
    replaced(r, "//% MAIN_ACTIVITY_ON_ACTIVITY_RESULT"@, inject[6])
}

/// Replaces every occurrence of `from` in `text` by `to`, left to right.
pub fn replace_all(text: &str, from: &str, to: &str) -> (r: String)
    requires
        from@.len() > 0,
    ensures
        r@ == replaced(text@, from@, to@),
{
    let ghost t = text@;
    let cs = chars_of(text);
    let fv = chars_of(from);
    let n = cs.len();
    let m = fv.len();
    let mut out = String::new();
    let mut start: usize = 0;
    let mut k: usize = 0;
    proof {
        assert(t.subrange(0, n as int) =~= t);
        assert(out@ + t.subrange(0, 0) =~= Seq::<char>::empty());
    }
    while k < n
        invariant
            start <= k <= n,
            t == text@,
            n == t.len(),
            cs@ == t,
            fv@ == from@,
            m == from@.len(),
            m > 0,
            out@ + t.subrange(start as int, k as int) + replaced(
                t.subrange(k as int, n as int),
                from@,
                to@,
            ) == replaced(t, from@, to@),
        decreases n - k,
    {
        let ghost rest = t.subrange(k as int, n as int);
        if m <= n - k && occurs_at(&cs, k, n, &fv) {
            proof {
                assert(rest.subrange(0, m as int) =~= t.subrange(k as int, k + m));
                assert(rest.subrange(m as int, rest.len() as int) =~= t.subrange(
                    k + m,
                    n as int,
                ));
            }
            out.append(text.substring_char(start, k));
            out.append(to);
            k = k + m;
            start = k;
            proof {
                let mid = t.subrange(start as int, k as int);
                assert(mid =~= Seq::<char>::empty());
            }
        } else {
            proof {
                assert(rest.subrange(1, rest.len() as int) =~= t.subrange(k + 1, n as int));
                if rest.len() >= m {
                    assert(rest.subrange(0, m as int) =~= t.subrange(k as int, k + m));
                }
            }
            k = k + 1;
        }
    }
    out.append(text.substring_char(start, n));
    proof {
        assert(t.subrange(n as int, n as int) =~= Seq::<char>::empty());
    }
    out
}

/// Fills in the main activity's source: the package and library names, then the code
/// that the inject templates in `inject_sources` add, each section at its marker.
pub fn preprocess_main_activity(
    java_src: &str,
    package_name: &str,
    library_name: &str,
    inject_sources: &Vec<String>,
) -> (r: String)
    requires
        forall|i: int| 0 <= i < inject_sources@.len() ==> parsed(#[trigger] inject_sources@[i]@).ok,
    ensures
        r@ == preprocessed(
            java_src@,
            package_name@,
            library_name@,
            merged(inject_sources@.map_values(|s: String| s@)),
        ),
{
    let ghost srcs = inject_sources@.map_values(|s: String| s@);
    let mut inject = Inject::new();
    let mut i: usize = 0;
    proof {
        assert(srcs.take(0) =~= Seq::<Seq<char>>::empty());
        assert(inject@ =~= merged(srcs.take(0)));
    }
    while i < inject_sources.len()
        invariant
            i <= inject_sources@.len(),
            srcs == inject_sources@.map_values(|s: String| s@),
            forall|j: int| 0 <= j < inject_sources@.len() ==> parsed(#[trigger] inject_sources@[j]@).ok,
            inject@ == merged(srcs.take(i as int)),
        decreases inject_sources@.len() - i,
    {
        let parsed_one = parse_inject_template(inject_sources[i].as_str());
        inject.add(parsed_one);
        proof {
            let next = srcs.take(i + 1);
            assert(next.drop_last() =~= srcs.take(i as int));
            assert(next.last() == inject_sources@[i as int]@);
            assert(inject@ =~= merged(next));
        }
        i = i + 1;
    }
    proof {
        assert(srcs.take(inject_sources@.len() as int) =~= srcs);
        reveal_strlit("TARGET_PACKAGE_NAME");
        reveal_strlit("LIBRARY_NAME");
        reveal_strlit("//% IMPORTS");
        reveal_strlit("//% QUAD_SURFACE_ON_CREATE_INPUT_CONNECTION");
        reveal_strlit("//% MAIN_ACTIVITY_BODY");
        reveal_strlit("//% MAIN_ACTIVITY_ON_RESUME");
        reveal_strlit("//% MAIN_ACTIVITY_ON_PAUSE");
        reveal_strlit("//% MAIN_ACTIVITY_ON_CREATE");
        reveal_strlit("//% MAIN_ACTIVITY_ON_ACTIVITY_RESULT");
    }
    let res = replace_all(java_src, "TARGET_PACKAGE_NAME", package_name);
    let res = replace_all(res.as_str(), "LIBRARY_NAME", library_name);
    let res = replace_all(res.as_str(), "//% IMPORTS", inject.imports.as_str());
    let res = replace_all(
        res.as_str(),
        "//% QUAD_SURFACE_ON_CREATE_INPUT_CONNECTION",
        inject.quad_surface.on_create_input_connection.as_str(),
    );
    let res = replace_all(res.as_str(), "//% MAIN_ACTIVITY_BODY", inject.main_activity.body.as_str());
    let res = replace_all(
        res.as_str(),
        "//% MAIN_ACTIVITY_ON_RESUME",
        inject.main_activity.on_resume.as_str(),
    );
    let res = replace_all(
        res.as_str(),
        "//% MAIN_ACTIVITY_ON_PAUSE",
        inject.main_activity.on_pause.as_str(),
    );
    let res = replace_all(
        res.as_str(),
        "//% MAIN_ACTIVITY_ON_CREATE",
        inject.main_activity.on_create.as_str(),
    );
    replace_all(
        res.as_str(),
        "//% MAIN_ACTIVITY_ON_ACTIVITY_RESULT",
        inject.main_activity.on_activity_result.as_str(),
    )
}

} // verus!
