//! Idempotent startup provisioning: the distinguished "Geral" project that
//! carries the site-wide forum, and the stock of default attachment filters.

use vstd::prelude::*;

use crate::error::AppError;
use crate::model::{EmailFilter, FilterKind, Project, Store};
use crate::project::ProjectService;
use crate::email::EmailService;

verus! {

/// Some project carries this name.
pub open spec fn has_project_named(projects: Seq<Project>, name: Seq<char>) -> bool {
    exists|i: int| 0 <= i < projects.len() && (#[trigger] projects[i]).name@ == name
}

/// The pattern and kind of the `k`-th default filter: common decorative
/// attachment names, and a small-size cutoff.
pub open spec fn default_filter_spec(k: int) -> (Seq<char>, FilterKind) {
    if k == 0 {
        ("logo"@, FilterKind::Filename)
    } else if k == 1 {
        ("signature"@, FilterKind::Filename)
    } else if k == 2 {
        ("banner"@, FilterKind::Filename)
    } else if k == 3 {
        ("icon"@, FilterKind::Filename)
    } else if k == 4 {
        ("footer"@, FilterKind::Filename)
    } else if k == 5 {
        ("header"@, FilterKind::Filename)
    } else if k == 6 {
        ("facebook"@, FilterKind::Filename)
    } else if k == 7 {
        ("linkedin"@, FilterKind::Filename)
    } else if k == 8 {
        ("instagram"@, FilterKind::Filename)
    } else if k == 9 {
        ("twitter"@, FilterKind::Filename)
    } else {
        ("5000"@, FilterKind::SizeMax)
    }
}

/// Makes sure the distinguished "Geral" project exists: found or created.
/// Success is not owed on the creating path: a drawn id can collide.
pub fn ensure_geral(store: &mut Store, now: i64) -> (r: Result<Project, AppError>)
    requires
        old(store)@.wf(),
    ensures
        final(store)@.wf(),
        match r {
            Ok(p) => {
                &&& p.name@ == "Geral"@
                &&& has_project_named(final(store)@.projects, "Geral"@)
                &&& if has_project_named(old(store)@.projects, "Geral"@) {
                    *final(store) == *old(store)
                } else {
                    final(store)@ == old(store)@.with_projects(old(store)@.projects.push(p))
                }
            },
            Err(e) => {
                &&& *final(store) == *old(store)
                &&& e is Internal
                &&& !has_project_named(old(store)@.projects, "Geral"@)
            },
        },
{
    let name = String::from_str("Geral");
    match project_named_index(&store.projects, &name) {
        Some(i) => {
            let p = store.projects[i].duplicate();
            proof {
                assert(has_project_named(store@.projects, "Geral"@));
            }
            Ok(p)
        },
        None => {
            proof {
                reveal_strlit("Geral");
                assert(crate::text::trim_seq("Geral"@) == "Geral"@);
            }
            let r = ProjectService::create(store, &name, now);
            match r {
                Ok(p) => {
                    proof {
                        let m1 = final(store)@;
                        assert(m1.projects.last().name@ == "Geral"@);
                        assert(has_project_named(m1.projects, "Geral"@));
                    }
                    Ok(p)
                },
                Err(_) => Err(
                    AppError::Internal(String::from_str("Could not create default project")),
                ),
            }
        },
    }
}

/// The position of a project with this name, if any.
fn project_named_index(v: &Vec<Project>, name: &String) -> (r: Option<usize>)
    ensures
        match r {
            Some(i) => i < v@.len() && v@[i as int].name@ == name@,
            None => !has_project_named(v@, name@),
        },
{
    let mut i: usize = 0;
    while i < v.len()
        invariant
            i <= v@.len(),
            forall|k: int| 0 <= k < i ==> (#[trigger] v@[k]).name@ != name@,
        decreases v@.len() - i,
    {
        if v[i].name == *name {
            return Some(i);
        }
        i += 1;
    }
    None
}

/// Records the `k`-th default filter. Success is not owed: the drawn id can
/// collide.
fn seed_one_filter(store: &mut Store, k: usize, now: i64) -> (r: Result<EmailFilter, AppError>)
    requires
        old(store)@.wf(),
        k < 11,
    ensures
        final(store)@.wf(),
        match r {
            Ok(f) => {
                &&& f.pattern@ == default_filter_spec(k as int).0
                &&& f.kind == default_filter_spec(k as int).1
                &&& f.active == true
                &&& f.created_at == now
                &&& final(store)@ == old(store)@.with_filters(old(store)@.filters.push(f))
            },
            Err(e) => {
                &&& *final(store) == *old(store)
                &&& e is Internal
            },
        },
{
    proof {
        reveal_strlit("filename");
        reveal_strlit("extension");
        reveal_strlit("size_max");
        assert("filename"@[0] == 'f' && "size_max"@[0] == 's' && "extension"@[0] == 'e');
    }
    let pattern = default_pattern(k);
    let kind_word = if k == 10 {
        String::from_str("size_max")
    } else {
        String::from_str("filename")
    };
    match EmailService::create_filter(store, &pattern, &kind_word, now) {
        Ok(f) => Ok(f),
        Err(_) => Err(AppError::Internal(String::from_str("Could not create default filter"))),
    }
}

/// Seeds the default attachment filters when none exist yet. A store that
/// already holds filters is left alone. The seeding is not atomic: a failure
/// midway leaves the filters recorded so far.
pub fn ensure_default_filters(store: &mut Store, now: i64) -> (r: Result<(), AppError>)
    requires
        old(store)@.wf(),
    ensures
        final(store)@.wf(),
        final(store)@ == old(store)@.with_filters(final(store)@.filters),
        old(store)@.filters.len() > 0 ==> *final(store) == *old(store),
        match r {
            Ok(_) => old(store)@.filters.len() == 0 ==> final(store)@.filters.len() == 11,
            Err(e) => e is Internal && final(store)@.filters.len() < 11,
        },
        old(store)@.filters.len() == 0 ==> forall|t: int|
            0 <= t < final(store)@.filters.len() ==> {
                let f = #[trigger] final(store)@.filters[t];
                &&& f.pattern@ == default_filter_spec(t).0
                &&& f.kind == default_filter_spec(t).1
                &&& f.active == true
                &&& f.created_at == now
            },
{
    if store.filters.len() > 0 {
        proof {
            assert(final(store)@ =~= old(store)@.with_filters(final(store)@.filters));
        }
        return Ok(());
    }
    let mut k: usize = 0;
    while k < 11
        invariant
            k <= 11,
            store@.wf(),
            old(store)@.filters.len() == 0,
            store@ == old(store)@.with_filters(store@.filters),
            store@.filters.len() == k,
            forall|t: int|
                0 <= t < k ==> {
                    let f = #[trigger] store@.filters[t];
                    &&& f.pattern@ == default_filter_spec(t).0
                    &&& f.kind == default_filter_spec(t).1
                    &&& f.active == true
                    &&& f.created_at == now
                },
        decreases 11 - k,
    {
        let ghost pre = store@;
        match seed_one_filter(store, k, now) {
            Ok(f) => {
                proof {
                    assert(store@ =~= old(store)@.with_filters(store@.filters));
                }
            },
            Err(e) => {
                proof {
                    assert(store@ =~= old(store)@.with_filters(store@.filters));
                }
                return Err(e);
            },
        }
        k += 1;
    }
    Ok(())
}

/// The pattern of the `k`-th default filter.
fn default_pattern(k: usize) -> (r: String)
    requires
        k < 11,
    ensures
        r@ == default_filter_spec(k as int).0,
{
    if k == 0 {
        String::from_str("logo")
    } else if k == 1 {
        String::from_str("signature")
    } else if k == 2 {
        String::from_str("banner")
    } else if k == 3 {
        String::from_str("icon")
    } else if k == 4 {
        String::from_str("footer")
    } else if k == 5 {
        String::from_str("header")
    } else if k == 6 {
        String::from_str("facebook")
    } else if k == 7 {
        String::from_str("linkedin")
    } else if k == 8 {
        String::from_str("instagram")
    } else if k == 9 {
        String::from_str("twitter")
    } else {
        String::from_str("5000")
    }
}

} // verus!
