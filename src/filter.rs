//! Which mailboxes a run takes: listing patterns sent to the server, and
//! names left out of what it returns.
use vstd::prelude::*;
use crate::config::ConfigData;
use crate::text::comma_list;
use crate::text::join_spaces;
use crate::text::join_with_spaces;
use crate::text::parse_comma_list;
use crate::text::views;

verus! {

/// The view of an optional string.
pub open spec fn opt_view(o: Option<String>) -> Option<Seq<char>> {
    match o {
        Some(s) => Some(s@),
        None => None,
    }
}

/// The listing patterns a wanted setting stands for: its trimmed comma
/// pieces, or the single wildcard where it is absent or empty.
pub open spec fn wanted_patterns(wanted: Option<Seq<char>>) -> Seq<Seq<char>> {
    match wanted {
        Some(s) => if s.len() > 0 { comma_list(s) } else { seq!["*"@] },
        None => seq!["*"@],
    }
}

/// The names an exclude setting stands for: its trimmed comma pieces, or
/// none where it is absent.
pub open spec fn exclude_patterns(exc: Option<Seq<char>>) -> Seq<Seq<char>> {
    match exc {
        Some(s) => comma_list(s),
        None => Seq::<Seq<char>>::empty(),
    }
}

/// The work list made of the listed `names`: each name that `ex` does not
/// hold, once, at the place of its first listing.
pub open spec fn work_list(names: Seq<Seq<char>>, ex: Seq<Seq<char>>) -> Seq<Seq<char>>
    decreases names.len(),
{
    if names.len() == 0 {
        Seq::<Seq<char>>::empty()
    } else {
        let rest = work_list(names.drop_last(), ex);
        if ex.contains(names.last()) || rest.contains(names.last()) {
            rest
        } else {
            rest.push(names.last())
        }
    }
}

/// Whether `v` holds a string equal to `name`.
fn contains_name(v: &Vec<String>, name: &String) -> (r: bool)
    ensures
        r == views(v@).contains(name@),
{
    let mut i: usize = 0;
    while i < v.len()
        invariant
            i <= v@.len(),
            forall|j: int| 0 <= j < i ==> views(v@)[j] != name@,
        decreases v@.len() - i,
    {
        if v[i] == *name {
            assert(views(v@)[i as int] == name@);
            return true;
        }
        i = i + 1;
    }
    false
}

/// The listing could not be had: no mailbox list is usable.
#[derive(Clone, Copy, Debug, PartialEq, Eq, Structural)]
pub enum CatalogError {
    CatalogUnavailable,
}

/// Include patterns and exclude names of a run.
pub struct MailboxFilter {
    wanted: Vec<String>,
    exclude: Vec<String>,
}

impl MailboxFilter {
    /// The listing patterns.
    pub closed spec fn patterns(&self) -> Seq<Seq<char>> {
        views(self.wanted@)
    }

    /// The names left out.
    pub closed spec fn excludes(&self) -> Seq<Seq<char>> {
        views(self.exclude@)
    }

    /// There is always at least one listing pattern.
    pub open spec fn wf(&self) -> bool {
        self.patterns().len() >= 1
    }

    /// Builds the filter from the two comma-separated settings.
    pub fn build(wanted: Option<String>, exclude: Option<String>) -> (r: MailboxFilter)
        ensures
            r.patterns() == wanted_patterns(opt_view(wanted)),
            r.excludes() == exclude_patterns(opt_view(exclude)),
            r.wf(),
    {
        let inc = match wanted {
            Some(s) => {
                if s.as_str().is_empty() {
                    vec![String::from_str("*")]
                } else {
                    parse_comma_list(s.as_str())
                }
            },
            None => vec![String::from_str("*")],
        };
        let exc = match exclude {
            Some(s) => parse_comma_list(s.as_str()),
            None => Vec::new(),
        };
        let r = MailboxFilter { wanted: inc, exclude: exc };
        assert(views(r.exclude@) =~= exclude_patterns(opt_view(exclude)));
        assert(views(r.wanted@) =~= wanted_patterns(opt_view(wanted)));
        proof {
            crate::text::lemma_comma_list_nonempty(opt_view(wanted));
        }
        r
    }

    /// Builds the filter from an endpoint's settings.
    pub fn from_config(data: &ConfigData) -> (r: MailboxFilter)
        ensures
            r.patterns() == wanted_patterns(opt_view(data.wanted)),
            r.excludes() == exclude_patterns(opt_view(data.exclude)),
            r.wf(),
    {
        MailboxFilter::build(data.wanted.clone(), data.exclude.clone())
    }

    /// The selector argument of the listing request: the patterns joined by
    /// single spaces.
    pub fn selector(&self) -> (r: String)
        ensures
            r@ == join_spaces(self.patterns()),
    {
        join_with_spaces(&self.wanted)
    }

    /// Whether a listed mailbox is kept: it is kept unless it is excluded,
    /// compared exactly.
    pub fn matches(&self, name: &String) -> (r: bool)
        ensures
            r == !self.excludes().contains(name@),
    {
        !contains_name(&self.exclude, name)
    }

    /// The work list: the listed names in server order, without the
    /// excluded ones and without repeats; an unavailable listing fails the
    /// whole catalog.
    pub fn select_listed(&self, listing: Option<Vec<String>>) -> (r: Result<Vec<String>, CatalogError>)
        ensures
            match listing {
                Some(l) => r matches Ok(v) && views(v@) == work_list(views(l@), self.excludes())
                    && views(v@).no_duplicates(),
                None => r == Err::<Vec<String>, CatalogError>(CatalogError::CatalogUnavailable),
            },
    {
        match listing {
            None => Err(CatalogError::CatalogUnavailable),
            Some(listed) => {
                let mut out: Vec<String> = Vec::new();
                let mut i: usize = 0;
                while i < listed.len()
                    invariant
                        i <= listed@.len(),
                        views(out@) == work_list(
                            views(listed@).subrange(0, i as int),
                            self.excludes(),
                        ),
                    decreases listed@.len() - i,
                {
                    let ghost pre = views(listed@).subrange(0, i as int);
                    let ghost next = views(listed@).subrange(0, i + 1);
                    assert(next.drop_last() == pre);
                    assert(next.last() == listed@[i as int]@);
                    if self.matches(&listed[i]) && !contains_name(&out, &listed[i]) {
                        let ghost before = out@;
                        out.push(listed[i].clone());
                        assert(views(out@) == views(before).push(listed@[i as int]@));
                    }
                    i = i + 1;
                }
                assert(views(listed@).subrange(0, i as int) == views(listed@));
                proof {
                    lemma_work_list_no_duplicates(views(listed@), self.excludes());
                }
                Ok(out)
            },
        }
    }
}

/// A name that the exclude setting holds is never in the work list,
/// whatever the server listed.
pub proof fn lemma_exclude_wins(listed: Seq<Seq<char>>, ex: Seq<Seq<char>>, name: Seq<char>)
    requires
        ex.contains(name),
    ensures
        !work_list(listed, ex).contains(name),
    decreases listed.len(),
{
    if listed.len() > 0 {
        lemma_exclude_wins(listed.drop_last(), ex, name);
    }
}

/// The work list keeps only listed names, each of them not excluded.
pub proof fn lemma_kept_are_listed(listed: Seq<Seq<char>>, ex: Seq<Seq<char>>, name: Seq<char>)
    requires
        work_list(listed, ex).contains(name),
    ensures
        listed.contains(name),
        !ex.contains(name),
    decreases listed.len(),
{
    if listed.len() > 0 {
        let rest = work_list(listed.drop_last(), ex);
        if rest.contains(name) {
            lemma_kept_are_listed(listed.drop_last(), ex, name);
            let k = choose|k: int| 0 <= k < listed.drop_last().len() && listed.drop_last()[k] == name;
            assert(listed[k] == name);
        } else {
            assert(name == listed.last());
            assert(listed[listed.len() - 1] == name);
        }
    }
}

/// Every listed name that is not excluded is in the work list.
pub proof fn lemma_listed_are_kept(listed: Seq<Seq<char>>, ex: Seq<Seq<char>>, name: Seq<char>)
    requires
        listed.contains(name),
        !ex.contains(name),
    ensures
        work_list(listed, ex).contains(name),
    decreases listed.len(),
{
    let pre = listed.drop_last();
    let rest = work_list(pre, ex);
    if listed.last() == name {
        if !rest.contains(name) {
            assert(work_list(listed, ex).last() == name);
            assert(work_list(listed, ex)[work_list(listed, ex).len() - 1] == name);
        }
    } else {
        let k = choose|k: int| 0 <= k < listed.len() && listed[k] == name;
        assert(pre[k] == name);
        lemma_listed_are_kept(pre, ex, name);
        let j = choose|j: int| 0 <= j < rest.len() && rest[j] == name;
        assert(work_list(listed, ex)[j] == name);
    }
}

/// The work list names each mailbox at most once.
pub proof fn lemma_work_list_no_duplicates(listed: Seq<Seq<char>>, ex: Seq<Seq<char>>)
    ensures
        work_list(listed, ex).no_duplicates(),
    decreases listed.len(),
{
    if listed.len() > 0 {
        lemma_work_list_no_duplicates(listed.drop_last(), ex);
    }
}

} // verus!
