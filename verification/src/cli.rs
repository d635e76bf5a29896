//! The choices that the command line makes: the targets to bundle for and
//! the application's name.
use vstd::prelude::*;
use crate::platform::{Target, all_targets, parse_target, spec_all_targets};

verus! {

/// Parsing every name in order: the targets, or the error of the first
/// name that is no target.
pub open spec fn parse_targets(names: Seq<Seq<char>>) -> Result<Seq<Target>, Seq<char>>
    decreases names.len(),
{
    if names.len() == 0 {
        Ok(seq![])
    } else {
        match parse_targets(names.drop_last()) {
            Err(e) => Err(e),
            Ok(ts) => match parse_target(names.last()) {
                Ok(t) => Ok(ts.push(t)),
                Err(e) => Err(e),
            },
        }
    }
}

/// The targets that the command line selects: every supported target
/// with `--all-platforms`, else the named ones (an error for the first
/// name that is no target, or when no target is named).
pub open spec fn selected_targets(all_platforms: bool, names: Seq<Seq<char>>) -> Result<
    Seq<Target>,
    Seq<char>,
> {
    if all_platforms {
        Ok(spec_all_targets())
    } else {
        match parse_targets(names) {
            Err(e) => Err(e),
            Ok(ts) => if ts.len() == 0 {
                Err("No valid target platform given."@)
            } else {
                Ok(ts)
            },
        }
    }
}

proof fn lemma_error_stays(names: Seq<Seq<char>>, k: int)
    requires
        0 <= k <= names.len(),
        parse_targets(names.take(k)) is Err,
    ensures
        parse_targets(names) == parse_targets(names.take(k)),
    decreases names.len() - k,
{
    if k < names.len() {
        assert(names.take(k + 1).drop_last() =~= names.take(k));
        lemma_error_stays(names, k + 1);
    } else {
        assert(names.take(k) =~= names);
    }
}

/// The targets to bundle for.
pub fn resolve_targets(all_platforms: bool, names: &Vec<String>) -> (r: Result<Vec<Target>, String>)
    ensures
        match selected_targets(all_platforms, names.deep_view()) {
            Ok(ts) => (r matches Ok(v) && v@ == ts),
            Err(e) => (r matches Err(m) && m@ == e),
        },
{
    if all_platforms {
        return Ok(all_targets());
    }
    let mut out: Vec<Target> = Vec::new();
    let mut i: usize = 0;
    assert(names.deep_view().take(0) =~= Seq::<Seq<char>>::empty());
    while i < names.len()
        invariant
            i <= names.len(),
            !all_platforms,
            parse_targets(names.deep_view().take(i as int)) == Ok::<Seq<Target>, Seq<char>>(out@),
        decreases names.len() - i,
    {
        let ghost post = names.deep_view().take(i + 1);
        assert(post.drop_last() =~= names.deep_view().take(i as int));
        assert(post.last() == names@[i as int]@);
        match Target::parse(names[i].as_str()) {
            Ok(t) => {
                out.push(t);
            },
            Err(e) => {
                proof {
                    lemma_error_stays(names.deep_view(), i + 1);
                }
                return Err(e);
            },
        }
        i += 1;
    }
    assert(names.deep_view().take(names.len() as int) =~= names.deep_view());
    if out.len() == 0 {
        return Err("No valid target platform given.".to_owned());
    }
    Ok(out)
}

/// The application's name: the one given, else the script's file stem,
/// else `app`.
pub fn application_name(name: Option<String>, script_stem: Option<&str>) -> (r: String)
    ensures
        r@ == match name {
            Some(n) => n@,
            None => match script_stem {
                Some(s) => s@,
                None => "app"@,
            },
        },
{
    match name {
        Some(n) => n,
        None => match script_stem {
            Some(s) => s.to_owned(),
            None => "app".to_owned(),
        },
    }
}

} // verus!
