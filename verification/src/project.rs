//! The project registry: creating, fetching, listing and archiving work
//! orders, and counting the documents filed under one.

use vstd::prelude::*;

use crate::error::AppError;
use crate::ids::random_uuid;
use crate::model::{docs_under, has_project, Project, ProjectStatus, Store};
use crate::text::{lower_seq, trim_seq, trim_str, eq_ignore_case};

verus! {

/// The status a listing filter names, if it names one: `active` or
/// `archived`, in any ASCII case.
pub open spec fn spec_status_of(s: Seq<char>) -> Option<ProjectStatus> {
    if lower_seq(s) == lower_seq("active"@) {
        Some(ProjectStatus::Active)
    } else if lower_seq(s) == lower_seq("archived"@) {
        Some(ProjectStatus::Archived)
    } else {
        None
    }
}

impl ProjectStatus {
    /// Reads a status filter word, ignoring ASCII case.
    pub fn parse_filter(s: &str) -> (r: Option<ProjectStatus>)
        ensures
            r == spec_status_of(s@),
    {
        if eq_ignore_case(s, "active") {
            Some(ProjectStatus::Active)
        } else if eq_ignore_case(s, "archived") {
            Some(ProjectStatus::Archived)
        } else {
            None
        }
    }
}

/// The projects with this status, newest (latest inserted) first.
pub open spec fn projects_with_status(s: Seq<Project>, st: ProjectStatus) -> Seq<Project>
    decreases s.len(),
{
    if s.len() == 0 {
        Seq::empty()
    } else {
        let rest = projects_with_status(s.drop_first(), st);
        if s.first().status == st {
            rest.push(s.first())
        } else {
            rest
        }
    }
}

/// Work-order bookkeeping over the store.
pub struct ProjectService;

impl ProjectService {
    /// Creates a project under a caller-chosen id: refused when the trimmed
    /// name is empty or the id is already taken, recorded otherwise.
    pub fn create_with_id(store: &mut Store, id: String, name: &String, now: i64) -> (r: Result<
        Project,
        AppError,
    >)
        requires
            old(store)@.wf(),
        ensures
            final(store)@.wf(),
            match r {
                Ok(p) => {
                    &&& p.id@ == id@
                    &&& p.name@ == trim_seq(name@)
                    &&& p.status is Active
                    &&& p.created_at == now
                    &&& trim_seq(name@).len() > 0
                    &&& !has_project(old(store)@.projects, id@)
                    &&& final(store)@ == old(store)@.with_projects(
                        old(store)@.projects.push(p),
                    )
                },
                Err(e) => {
                    &&& *final(store) == *old(store)
                    &&& match e {
                        AppError::BadRequest(_) => trim_seq(name@).len() == 0,
                        AppError::Internal(_) => trim_seq(name@).len() > 0 && has_project(
                            old(store)@.projects,
                            id@,
                        ),
                        AppError::NotFound(_) => false,
                    }
                },
            },
    {
        let trimmed = trim_str(name.as_str());
        if trimmed.unicode_len() == 0 {
            return Err(AppError::BadRequest(String::from_str("Project name cannot be empty")));
        }
        if crate::model::project_index(&store.projects, &id).is_some() {
            return Err(AppError::Internal(String::from_str("Project id already taken")));
        }
        let p = Project {
            id,
            name: String::from_str(trimmed),
            status: ProjectStatus::Active,
            created_at: now,
        };
        let out = p.duplicate();
        store.projects.push(p);
        proof {
            assert(final(store)@ =~= old(store)@.with_projects(old(store)@.projects.push(out)));
        }
        Ok(out)
    }

    /// Creates a project under a fresh random id. Success is not owed: the
    /// drawn id can collide, which surfaces as an internal error.
    pub fn create(store: &mut Store, name: &String, now: i64) -> (r: Result<Project, AppError>)
        requires
            old(store)@.wf(),
        ensures
            final(store)@.wf(),
            match r {
                Ok(p) => {
                    &&& p.name@ == trim_seq(name@)
                    &&& p.status is Active
                    &&& p.created_at == now
                    &&& trim_seq(name@).len() > 0
                    &&& final(store)@ == old(store)@.with_projects(
                        old(store)@.projects.push(p),
                    )
                },
                Err(e) => {
                    &&& *final(store) == *old(store)
                    &&& match e {
                        AppError::BadRequest(_) => trim_seq(name@).len() == 0,
                        AppError::Internal(_) => trim_seq(name@).len() > 0,
                        AppError::NotFound(_) => false,
                    }
                },
            },
    {
        let id = random_uuid();
        Self::create_with_id(store, id, name, now)
    }

    /// Fetches the project with this id; `NotFound` exactly when none
    /// carries it.
    pub fn get_by_id(store: &Store, id: &String) -> (r: Result<Project, AppError>)
        ensures
            match r {
                Ok(p) => store@.projects.contains(p) && p.id@ == id@,
                Err(e) => e is NotFound && !has_project(store@.projects, id@),
            },
    {
        match crate::model::project_index(&store.projects, id) {
            Some(i) => {
                let p = store.projects[i].duplicate();
                Ok(p)
            },
            None => Err(AppError::not_found_named("Project with id '", id, "' not found")),
        }
    }

    /// Lists projects, newest inserted first, optionally keeping one status;
    /// by the listing laws in `laws`, that is creation-time descending
    /// whenever creation times never decrease along insertion. A filter word
    /// naming no status is refused.
    pub fn list(store: &Store, status_filter: Option<&String>) -> (r: Result<
        Vec<Project>,
        AppError,
    >)
        ensures
            match r {
                Ok(v) => match status_filter {
                    Some(f) => {
                        &&& spec_status_of(f@) is Some
                        &&& v@ == projects_with_status(store@.projects, spec_status_of(f@)->0)
                    },
                    None => v@ == store@.projects.reverse(),
                },
                Err(e) => e is BadRequest && (match status_filter {
                    Some(f) => spec_status_of(f@) is None,
                    None => false,
                }),
            },
    {
        match status_filter {
            Some(f) => {
                match ProjectStatus::parse_filter(f.as_str()) {
                    Some(st) => Ok(Self::collect_with_status(&store.projects, st)),
                    None => Err(
                        AppError::BadRequest(
                            String::from_str("Invalid status filter. Use 'active' or 'archived'"),
                        ),
                    ),
                }
            },
            None => {
                let mut out: Vec<Project> = Vec::new();
                let mut i: usize = store.projects.len();
                while i > 0
                    invariant
                        i <= store@.projects.len(),
                        out@ =~= store@.projects.skip(i as int).reverse(),
                    decreases i,
                {
                    i -= 1;
                    out.push(store.projects[i].duplicate());
                    proof {
                        assert(out@ =~= store@.projects.skip(i as int).reverse());
                    }
                }
                proof {
                    assert(store@.projects.skip(0) =~= store@.projects);
                }
                Ok(out)
            },
        }
    }

    fn collect_with_status(projects: &Vec<Project>, st: ProjectStatus) -> (r: Vec<Project>)
        ensures
            r@ == projects_with_status(projects@, st),
    {
        let mut out: Vec<Project> = Vec::new();
        let mut i: usize = projects.len();
        while i > 0
            invariant
                i <= projects@.len(),
                out@ == projects_with_status(projects@.skip(i as int), st),
            decreases i,
        {
            i -= 1;
            proof {
                assert(projects@.skip(i as int).drop_first() =~= projects@.skip(i + 1));
                assert(projects@.skip(i as int).first() == projects@[i as int]);
            }
            if projects[i].status.same_variant(st) {
                out.push(projects[i].duplicate());
            }
        }
        proof {
            assert(projects@.skip(0) =~= projects@);
        }
        out
    }

    /// Archives or reactivates the project with this id; `NotFound` exactly
    /// when none carries it.
    pub fn update_status(store: &mut Store, id: &String, status: ProjectStatus) -> (r: Result<
        Project,
        AppError,
    >)
        requires
            old(store)@.wf(),
        ensures
            final(store)@.wf(),
            match r {
                Ok(p) => exists|i: int|
                    {
                        &&& 0 <= i < old(store)@.projects.len()
                        &&& (#[trigger] old(store)@.projects[i]).id@ == id@
                        &&& p == (Project { status, ..old(store)@.projects[i] })
                        &&& final(store)@ == old(store)@.with_projects(
                            old(store)@.projects.update(i, p),
                        )
                    },
                Err(e) => {
                    &&& e is NotFound
                    &&& !has_project(old(store)@.projects, id@)
                    &&& *final(store) == *old(store)
                },
            },
    {
        match crate::model::project_index(&store.projects, id) {
            Some(i) => {
                let prev = store.projects.remove(i);
                let p = Project { status, ..prev };
                let out = p.duplicate();
                store.projects.insert(i, p);
                proof {
                    let ghost s0 = old(store)@.projects;
                    assert(final(store)@.projects =~= s0.update(i as int, out));
                    assert(final(store)@ =~= old(store)@.with_projects(s0.update(i as int, out)));
                    assert(0 <= i < s0.len() && s0[i as int].id@ == id@ && out == (Project {
                        status,
                        ..s0[i as int]
                    }));
                }
                Ok(out)
            },
            None => Err(AppError::not_found_named("Project with id '", id, "' not found")),
        }
    }

    /// The number of documents filed under this project id.
    pub fn get_document_count(store: &Store, project_id: &String) -> (r: usize)
        ensures
            r == docs_under(store@.docs, Some(project_id@)).len(),
    {
        let mut count: usize = 0;
        let mut i: usize = store.docs.len();
        while i > 0
            invariant
                i <= store@.docs.len() <= usize::MAX,
                count == docs_under(store@.docs.skip(i as int), Some(project_id@)).len(),
                count <= store@.docs.len() - i,
            decreases i,
        {
            i -= 1;
            proof {
                assert(store@.docs.skip(i as int).drop_first() =~= store@.docs.skip(i + 1));
                assert(store@.docs.skip(i as int).first() == store@.docs[i as int]);
            }
            match &store.docs[i].project_id {
                Some(p) => {
                    if *p == *project_id {
                        count += 1;
                    }
                },
                None => {},
            }
        }
        proof {
            assert(store@.docs.skip(0) =~= store@.docs);
        }
        count
    }
}

impl ProjectStatus {
    /// Whether two statuses are the same variant.
    pub fn same_variant(&self, other: ProjectStatus) -> (r: bool)
        ensures
            r == (*self == other),
    {
        match (self, other) {
            (ProjectStatus::Active, ProjectStatus::Active) => true,
            (ProjectStatus::Archived, ProjectStatus::Archived) => true,
            _ => false,
        }
    }
}

} // verus!
