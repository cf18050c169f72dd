//! Email ingestion and routing: attachment filters, sender routing rules,
//! and the webhook processing that turns surviving attachments into Inbox or
//! project documents.

use vstd::prelude::*;

use crate::clock::{upload_stamp, valid_time};
use crate::error::AppError;
use crate::ids::random_uuid;
use crate::model::{
    doc_index, file_exists, filter_index, has_doc, has_file, has_filter, has_rule, rule_index,
    DocStatus, Document, EmailFilter, EmailRule, FilterKind, Store,
};
use crate::text::{
    all_digits, contains_ignore_case, contains_seq, contains_str, dec_value, ends_with_ignore_case,
    ends_with_seq, lower_seq, parse_u64, starts_with_seq, starts_with_str, str_eq,
};

verus! {

// ---------------------------------------------------------------------------
// Attachment filters
// ---------------------------------------------------------------------------

/// An inbound attachment, reduced to what the policy reads: its name, its
/// declared type, and its size in bytes.
#[derive(Debug)]
pub struct Attachment {
    pub filename: String,
    pub content_type: String,
    pub size: u64,
}

/// `p` with a leading dot supplied where it lacks one.
pub open spec fn dotted(p: Seq<char>) -> Seq<char> {
    if p.len() > 0 && p[0] == '.' {
        p
    } else {
        "."@ + p
    }
}

/// Whether this filter rejects an attachment named `name` of `size` bytes.
/// A `SizeMax` filter rejects attachments strictly *smaller* than its
/// numeric pattern (it aims at decorative images); one whose pattern is not
/// a number rejects nothing.
pub open spec fn filter_rejects(f: EmailFilter, name: Seq<char>, size: u64) -> bool {
    f.active && match f.kind {
        FilterKind::Filename => contains_seq(lower_seq(name), lower_seq(f.pattern@)),
        FilterKind::Extension => ends_with_seq(lower_seq(name), dotted(lower_seq(f.pattern@))),
        FilterKind::SizeMax => all_digits(f.pattern@) && dec_value(f.pattern@) <= u64::MAX && (
        size as nat) < dec_value(f.pattern@),
    }
}

/// Whether any of the filters rejects the attachment.
pub open spec fn rejected(filters: Seq<EmailFilter>, name: Seq<char>, size: u64) -> bool {
    exists|i: int| 0 <= i < filters.len() && filter_rejects(#[trigger] filters[i], name, size)
}

/// Whether this one filter rejects the attachment.
fn filter_rejects_exec(f: &EmailFilter, name: &str, size: u64) -> (r: bool)
    ensures
        r == filter_rejects(*f, name@, size),
{
    if !f.active {
        return false;
    }
    match f.kind {
        FilterKind::Filename => contains_ignore_case(name, f.pattern.as_str()),
        FilterKind::Extension => {
            let p = f.pattern.as_str();
            let plen = p.unicode_len();
            if plen > 0 && p.get_char(0) == '.' {
                let r = ends_with_ignore_case(name, p);
                proof {
                    assert(lower_seq(p@)[0] == '.');
                    assert(dotted(lower_seq(p@)) == lower_seq(p@));
                }
                r
            } else {
                let mut with_dot = String::from_str(".");
                with_dot.append(p);
                let r = ends_with_ignore_case(name, with_dot.as_str());
                proof {
                    reveal_strlit(".");
                    if plen > 0 {
                        assert(lower_seq(p@)[0] != '.');
                    }
                    assert(with_dot@ == "."@ + p@);
                    assert(lower_seq(with_dot@) =~= "."@ + lower_seq(p@)) by {
                        assert(lower_seq(with_dot@).len() == ("."@ + lower_seq(p@)).len());
                        assert forall|t: int| 0 <= t < lower_seq(with_dot@).len() implies
                            lower_seq(with_dot@)[t] == ("."@ + lower_seq(p@))[t] by {
                            if t == 0 {
                                assert(with_dot@[0] == '.');
                                assert(crate::text::lower_char('.') == '.');
                            }
                        }
                    }
                    assert(dotted(lower_seq(p@)) == "."@ + lower_seq(p@));
                }
                r
            }
        },
        FilterKind::SizeMax => {
            match parse_u64(f.pattern.as_str()) {
                Some(v) => size < v,
                None => false,
            }
        },
    }
}

/// Email policy over the store.
pub struct EmailService;

impl EmailService {
    /// Whether the active filters reject an attachment named `filename` of
    /// `size` bytes.
    pub fn should_filter_attachment(store: &Store, filename: &str, size: u64) -> (r: bool)
        ensures
            r == rejected(store@.filters, filename@, size),
    {
        let mut i: usize = 0;
        while i < store.filters.len()
            invariant
                i <= store@.filters.len(),
                forall|k: int|
                    0 <= k < i ==> !filter_rejects(#[trigger] store@.filters[k], filename@, size),
            decreases store@.filters.len() - i,
        {
            if filter_rejects_exec(&store.filters[i], filename, size) {
                return true;
            }
            i += 1;
        }
        false
    }
}

// ---------------------------------------------------------------------------
// Routing rules
// ---------------------------------------------------------------------------

/// Whether this rule matches the sender: a `*`-led pattern by suffix, any
/// other by substring, both up to ASCII case.
pub open spec fn rule_matches(r: EmailRule, sender: Seq<char>) -> bool {
    r.active && {
        let p = lower_seq(r.sender_pattern@);
        let s = lower_seq(sender);
        if p.len() > 0 && p[0] == '*' {
            ends_with_seq(s, p.skip(1))
        } else {
            contains_seq(s, p)
        }
    }
}

/// The first matching rule, trying the newest rule first.
pub open spec fn match_rule(rules: Seq<EmailRule>, sender: Seq<char>) -> Option<EmailRule>
    decreases rules.len(),
{
    if rules.len() == 0 {
        None
    } else if rule_matches(rules.last(), sender) {
        Some(rules.last())
    } else {
        match_rule(rules.drop_last(), sender)
    }
}

/// The project a sender's mail is routed to: the matching rule's project,
/// or the Inbox when no rule matches.
pub open spec fn route_of(rules: Seq<EmailRule>, sender: Seq<char>) -> Option<String> {
    match match_rule(rules, sender) {
        Some(r) => r.project_id,
        None => None,
    }
}

/// Whether this one rule matches the sender.
fn rule_matches_exec(rule: &EmailRule, sender: &str) -> (r: bool)
    ensures
        r == rule_matches(*rule, sender@),
{
    if !rule.active {
        return false;
    }
    let p = rule.sender_pattern.as_str();
    let plen = p.unicode_len();
    if plen > 0 && p.get_char(0) == '*' {
        proof {
            assert(lower_seq(p@)[0] == '*');
        }
        let suffix = p.substring_char(1, plen);
        let r = ends_with_ignore_case(sender, suffix);
        proof {
            assert(lower_seq(suffix@) =~= lower_seq(p@).skip(1));
        }
        r
    } else {
        proof {
            if plen > 0 && lower_seq(p@)[0] == '*' {
                assert(p@[0] == '*');
            }
        }
        contains_ignore_case(sender, p)
    }
}

impl EmailService {
    /// The first active rule matching this sender, newest rule first; `None`
    /// when no rule matches.
    pub fn find_matching_rule(store: &Store, sender: &str) -> (r: Option<EmailRule>)
        ensures
            r == match_rule(store@.rules, sender@),
    {
        let mut i: usize = store.rules.len();
        proof {
            assert(store@.rules.take(i as int) =~= store@.rules);
        }
        while i > 0
            invariant
                i <= store@.rules.len(),
                match_rule(store@.rules, sender@) == match_rule(
                    store@.rules.take(i as int),
                    sender@,
                ),
            decreases i,
        {
            i -= 1;
            proof {
                assert(store@.rules.take(i + 1).last() == store@.rules[i as int]);
                assert(store@.rules.take(i + 1).drop_last() =~= store@.rules.take(i as int));
            }
            if rule_matches_exec(&store.rules[i], sender) {
                let r = store.rules[i].duplicate();
                return Some(r);
            }
        }
        proof {
            assert(store@.rules.take(0) =~= Seq::<EmailRule>::empty());
        }
        None
    }
}

// ---------------------------------------------------------------------------
// Extensions and categories for saved attachments
// ---------------------------------------------------------------------------

/// What follows the last dot of `s` (all of `s` when it has no dot).
pub open spec fn tail_after_dot(s: Seq<char>) -> Seq<char> {
    s.skip(crate::document::last_dot(s) + 1)
}

/// The stored extension a known content type falls back to.
pub open spec fn spec_ctype_ext(c: Seq<char>) -> Seq<char> {
    if c == "image/jpeg"@ {
        "jpg"@
    } else if c == "image/png"@ {
        "png"@
    } else if c == "image/gif"@ {
        "gif"@
    } else if c == "image/webp"@ {
        "webp"@
    } else if c == "application/pdf"@ {
        "pdf"@
    } else if c == "application/vnd.openxmlformats-officedocument.spreadsheetml.sheet"@ {
        "xlsx"@
    } else if c == "application/vnd.ms-excel"@ {
        "xls"@
    } else if c == "text/csv"@ {
        "csv"@
    } else if c == "application/vnd.openxmlformats-officedocument.wordprocessingml.document"@ {
        "docx"@
    } else if c == "application/msword"@ {
        "doc"@
    } else if c == "text/plain"@ {
        "txt"@
    } else {
        "bin"@
    }
}

/// The extension an attachment is stored under: what follows the last dot of
/// its name when that is short and path-free, else a fallback from its
/// content type.
pub open spec fn spec_email_extension(name: Seq<char>, ctype: Seq<char>) -> Seq<char> {
    let e = tail_after_dot(name);
    if !contains_seq(e, "/"@) && e.len() <= 10 {
        lower_seq(e)
    } else {
        spec_ctype_ext(ctype)
    }
}

/// The category a content type is filed under: `image`, `pdf`, `excel`,
/// `word`, `video` or `other`.
pub open spec fn spec_ctype_category(c: Seq<char>) -> Seq<char> {
    if starts_with_seq(c, "image/"@) {
        "image"@
    } else if c == "application/pdf"@ {
        "pdf"@
    } else if contains_seq(c, "spreadsheet"@) || contains_seq(c, "excel"@) || c == "text/csv"@ {
        "excel"@
    } else if contains_seq(c, "word"@) || contains_seq(c, "document"@) {
        "word"@
    } else if starts_with_seq(c, "video/"@) {
        "video"@
    } else {
        "other"@
    }
}

impl EmailService {
    /// The stored extension for an attachment: from the file name when
    /// usable, from the content type otherwise.
    pub fn get_extension(filename: &str, content_type: &str) -> (r: String)
        ensures
            r@ == spec_email_extension(filename@, content_type@),
    {
        let len = filename.unicode_len();
        let mut i: usize = len;
        while i > 0
            invariant
                i <= len,
                len == filename@.len(),
                forall|t: int| i <= t < len ==> filename@[t] != '.',
            decreases i,
        {
            i -= 1;
            if filename.get_char(i) == '.' {
                proof {
                    crate::document::lemma_last_dot_take(filename@, i + 1);
                    assert(filename@.take(i + 1).last() == filename@[i as int]);
                    assert(crate::document::last_dot(filename@) == i);
                }
                let e = filename.substring_char(i + 1, len);
                proof {
                    assert(e@ =~= filename@.skip(i + 1));
                }
                return Self::extension_from_tail(e, content_type);
            }
        }
        proof {
            crate::document::lemma_last_dot_take(filename@, 0);
            assert(filename@.take(0) =~= Seq::<char>::empty());
            assert(filename@.skip(crate::document::last_dot(filename@) + 1) =~= filename@);
        }
        Self::extension_from_tail(filename, content_type)
    }

    /// The stored extension once the name's tail is in hand.
    fn extension_from_tail(e: &str, content_type: &str) -> (r: String)
        ensures
            r@ == (if !contains_seq(e@, "/"@) && e@.len() <= 10 {
                lower_seq(e@)
            } else {
                spec_ctype_ext(content_type@)
            }),
    {
        if !contains_str(e, "/") && e.unicode_len() <= 10 {
            crate::text::to_lowercase_ascii(e)
        } else {
            Self::content_type_extension(content_type)
        }
    }

    /// The fallback extension for a content type.
    fn content_type_extension(c: &str) -> (r: String)
        ensures
            r@ == spec_ctype_ext(c@),
    {
        if str_eq(c, "image/jpeg") {
            String::from_str("jpg")
        } else if str_eq(c, "image/png") {
            String::from_str("png")
        } else if str_eq(c, "image/gif") {
            String::from_str("gif")
        } else if str_eq(c, "image/webp") {
            String::from_str("webp")
        } else if str_eq(c, "application/pdf") {
            String::from_str("pdf")
        } else if str_eq(c, "application/vnd.openxmlformats-officedocument.spreadsheetml.sheet") {
            String::from_str("xlsx")
        } else if str_eq(c, "application/vnd.ms-excel") {
            String::from_str("xls")
        } else if str_eq(c, "text/csv") {
            String::from_str("csv")
        } else if str_eq(c, "application/vnd.openxmlformats-officedocument.wordprocessingml.document") {
            String::from_str("docx")
        } else if str_eq(c, "application/msword") {
            String::from_str("doc")
        } else if str_eq(c, "text/plain") {
            String::from_str("txt")
        } else {
            String::from_str("bin")
        }
    }

    /// Files a content type under `image`, `pdf`, `excel`, `word`, `video`
    /// or `other`.
    pub fn categorize_content_type(content_type: &str) -> (r: String)
        ensures
            r@ == spec_ctype_category(content_type@),
    {
        if starts_with_str(content_type, "image/") {
            String::from_str("image")
        } else if str_eq(content_type, "application/pdf") {
            String::from_str("pdf")
        } else if contains_str(content_type, "spreadsheet") || contains_str(content_type, "excel")
            || str_eq(content_type, "text/csv") {
            String::from_str("excel")
        } else if contains_str(content_type, "word") || contains_str(content_type, "document") {
            String::from_str("word")
        } else if starts_with_str(content_type, "video/") {
            String::from_str("video")
        } else {
            String::from_str("other")
        }
    }
}

// ---------------------------------------------------------------------------
// Rule and filter bookkeeping
// ---------------------------------------------------------------------------

/// The kind a filter-type word names, if it names one.
pub open spec fn spec_filter_kind(s: Seq<char>) -> Option<FilterKind> {
    if s == "filename"@ {
        Some(FilterKind::Filename)
    } else if s == "extension"@ {
        Some(FilterKind::Extension)
    } else if s == "size_max"@ {
        Some(FilterKind::SizeMax)
    } else {
        None
    }
}

impl FilterKind {
    /// Reads a filter-type word; only `filename`, `extension` and `size_max`
    /// name kinds.
    pub fn parse(s: &str) -> (r: Option<FilterKind>)
        ensures
            r == spec_filter_kind(s@),
    {
        if str_eq(s, "filename") {
            Some(FilterKind::Filename)
        } else if str_eq(s, "extension") {
            Some(FilterKind::Extension)
        } else if str_eq(s, "size_max") {
            Some(FilterKind::SizeMax)
        } else {
            None
        }
    }
}

impl EmailService {
    /// Lists the routing rules, newest first.
    pub fn list_rules(store: &Store) -> (r: Vec<EmailRule>)
        ensures
            r@ == store@.rules.reverse(),
    {
        let mut out: Vec<EmailRule> = Vec::new();
        let mut i: usize = store.rules.len();
        while i > 0
            invariant
                i <= store@.rules.len(),
                out@ =~= store@.rules.skip(i as int).reverse(),
            decreases i,
        {
            i -= 1;
            out.push(store.rules[i].duplicate());
            proof {
                assert(out@ =~= store@.rules.skip(i as int).reverse());
            }
        }
        proof {
            assert(store@.rules.skip(0) =~= store@.rules);
        }
        out
    }

    /// Records a routing rule under a caller-chosen id: refused when the id
    /// is already taken.
    pub fn create_rule_with_id(
        store: &mut Store,
        id: String,
        sender_pattern: &String,
        project_id: Option<&String>,
        description: Option<&String>,
        now: i64,
    ) -> (r: Result<EmailRule, AppError>)
        requires
            old(store)@.wf(),
        ensures
            final(store)@.wf(),
            match r {
                Ok(rule) => {
                    &&& rule.id@ == id@
                    &&& rule.sender_pattern@ == sender_pattern@
                    &&& crate::model::opt_str_view(rule.project_id) == crate::document::opt_key(
                        project_id,
                    )
                    &&& crate::model::opt_str_view(rule.description) == crate::document::opt_key(
                        description,
                    )
                    &&& rule.active == true
                    &&& rule.created_at == now
                    &&& !has_rule(old(store)@.rules, id@)
                    &&& final(store)@ == old(store)@.with_rules(old(store)@.rules.push(rule))
                },
                Err(e) => {
                    &&& *final(store) == *old(store)
                    &&& e is Internal
                    &&& has_rule(old(store)@.rules, id@)
                },
            },
    {
        if rule_index(&store.rules, &id).is_some() {
            return Err(AppError::Internal(String::from_str("Rule id already taken")));
        }
        let rule = EmailRule {
            id,
            sender_pattern: sender_pattern.clone(),
            project_id: match project_id {
                Some(p) => Some(p.clone()),
                None => None,
            },
            description: match description {
                Some(d) => Some(d.clone()),
                None => None,
            },
            active: true,
            created_at: now,
        };
        let out = rule.duplicate();
        store.rules.push(rule);
        proof {
            let m0 = old(store)@;
            let m1 = final(store)@;
            assert(m1 =~= m0.with_rules(m0.rules.push(out)));
            assert forall|a: int, b: int|
                0 <= a < b < m1.rules.len() implies m1.rules[a].id@ != m1.rules[b].id@ by {
                if b == m0.rules.len() {
                    if m0.rules[a].id@ == out.id@ {
                        assert(has_rule(m0.rules, out.id@));
                    }
                }
            }
        }
        Ok(out)
    }

    /// Records a routing rule under a fresh random id. Success is not owed:
    /// the drawn id can collide, which surfaces as an internal error.
    pub fn create_rule(
        store: &mut Store,
        sender_pattern: &String,
        project_id: Option<&String>,
        description: Option<&String>,
        now: i64,
    ) -> (r: Result<EmailRule, AppError>)
        requires
            old(store)@.wf(),
        ensures
            final(store)@.wf(),
            match r {
                Ok(rule) => {
                    &&& rule.sender_pattern@ == sender_pattern@
                    &&& crate::model::opt_str_view(rule.project_id) == crate::document::opt_key(
                        project_id,
                    )
                    &&& rule.active == true
                    &&& rule.created_at == now
                    &&& final(store)@ == old(store)@.with_rules(old(store)@.rules.push(rule))
                },
                Err(e) => *final(store) == *old(store) && e is Internal,
            },
    {
        let id = random_uuid();
        Self::create_rule_with_id(store, id, sender_pattern, project_id, description, now)
    }

    /// Removes the rule with this id; `NotFound` exactly when none carries
    /// it.
    pub fn delete_rule(store: &mut Store, id: &String) -> (r: Result<(), AppError>)
        requires
            old(store)@.wf(),
        ensures
            final(store)@.wf(),
            match r {
                Ok(_) => {
                    &&& exists|i: int|
                        {
                            &&& 0 <= i < old(store)@.rules.len()
                            &&& (#[trigger] old(store)@.rules[i]).id@ == id@
                            &&& final(store)@ == old(store)@.with_rules(
                                old(store)@.rules.remove(i),
                            )
                        }
                    &&& !has_rule(final(store)@.rules, id@)
                },
                Err(e) => {
                    &&& *final(store) == *old(store)
                    &&& e is NotFound
                    &&& !has_rule(old(store)@.rules, id@)
                },
            },
    {
        match rule_index(&store.rules, id) {
            None => Err(AppError::not_found_named("Email rule '", id, "' not found")),
            Some(i) => {
                store.rules.remove(i);
                proof {
                    let m0 = old(store)@;
                    let m1 = final(store)@;
                    assert(m1 =~= m0.with_rules(m0.rules.remove(i as int)));
                    assert forall|a: int, b: int|
                        0 <= a < b < m1.rules.len() implies m1.rules[a].id@
                        != m1.rules[b].id@ by {
                        let a0: int = if a < i { a } else { a + 1 };
                        let b0: int = if b < i { b } else { b + 1 };
                        assert(m0.rules[a0].id@ != m0.rules[b0].id@);
                    }
                    assert forall|a: int|
                        0 <= a < m1.rules.len() implies (#[trigger] m1.rules[a]).id@ != id@ by {
                        let a0: int = if a < i { a } else { a + 1 };
                        assert(m1.rules[a] == m0.rules[a0]);
                        if a0 < i {
                            assert(m0.rules[a0].id@ != m0.rules[i as int].id@);
                        } else {
                            assert(m0.rules[i as int].id@ != m0.rules[a0].id@);
                        }
                    }
                }
                Ok(())
            },
        }
    }

    /// Lists the attachment filters, newest first.
    pub fn list_filters(store: &Store) -> (r: Vec<EmailFilter>)
        ensures
            r@ == store@.filters.reverse(),
    {
        let mut out: Vec<EmailFilter> = Vec::new();
        let mut i: usize = store.filters.len();
        while i > 0
            invariant
                i <= store@.filters.len(),
                out@ =~= store@.filters.skip(i as int).reverse(),
            decreases i,
        {
            i -= 1;
            out.push(store.filters[i].duplicate());
            proof {
                assert(out@ =~= store@.filters.skip(i as int).reverse());
            }
        }
        proof {
            assert(store@.filters.skip(0) =~= store@.filters);
        }
        out
    }

    /// Records an attachment filter under a caller-chosen id: refused when
    /// the filter type names no kind or the id is already taken.
    pub fn create_filter_with_id(
        store: &mut Store,
        id: String,
        pattern: &String,
        filter_type: &String,
        now: i64,
    ) -> (r: Result<EmailFilter, AppError>)
        requires
            old(store)@.wf(),
        ensures
            final(store)@.wf(),
            match r {
                Ok(f) => {
                    &&& f.id@ == id@
                    &&& f.pattern@ == pattern@
                    &&& spec_filter_kind(filter_type@) == Some(f.kind)
                    &&& f.active == true
                    &&& f.created_at == now
                    &&& !has_filter(old(store)@.filters, id@)
                    &&& final(store)@ == old(store)@.with_filters(old(store)@.filters.push(f))
                },
                Err(e) => {
                    &&& *final(store) == *old(store)
                    &&& match e {
                        AppError::BadRequest(_) => spec_filter_kind(filter_type@) is None,
                        AppError::Internal(_) => spec_filter_kind(filter_type@) is Some
                            && has_filter(old(store)@.filters, id@),
                        AppError::NotFound(_) => false,
                    }
                },
            },
    {
        let kind = match FilterKind::parse(filter_type.as_str()) {
            Some(k) => k,
            None => {
                return Err(
                    AppError::BadRequest(
                        String::from_str(
                            "filter_type must be 'filename', 'extension', or 'size_max'",
                        ),
                    ),
                );
            },
        };
        if filter_index(&store.filters, &id).is_some() {
            return Err(AppError::Internal(String::from_str("Filter id already taken")));
        }
        let f = EmailFilter { id, pattern: pattern.clone(), kind, active: true, created_at: now };
        let out = f.duplicate();
        store.filters.push(f);
        proof {
            let m0 = old(store)@;
            let m1 = final(store)@;
            assert(m1 =~= m0.with_filters(m0.filters.push(out)));
            assert forall|a: int, b: int|
                0 <= a < b < m1.filters.len() implies m1.filters[a].id@ != m1.filters[b].id@ by {
                if b == m0.filters.len() {
                    if m0.filters[a].id@ == out.id@ {
                        assert(has_filter(m0.filters, out.id@));
                    }
                }
            }
        }
        Ok(out)
    }

    /// Records an attachment filter under a fresh random id. Success is not
    /// owed: the drawn id can collide, which surfaces as an internal error.
    pub fn create_filter(store: &mut Store, pattern: &String, filter_type: &String, now: i64) -> (r:
        Result<EmailFilter, AppError>)
        requires
            old(store)@.wf(),
        ensures
            final(store)@.wf(),
            match r {
                Ok(f) => {
                    &&& f.pattern@ == pattern@
                    &&& spec_filter_kind(filter_type@) == Some(f.kind)
                    &&& f.active == true
                    &&& f.created_at == now
                    &&& final(store)@ == old(store)@.with_filters(old(store)@.filters.push(f))
                },
                Err(e) => {
                    &&& *final(store) == *old(store)
                    &&& match e {
                        AppError::BadRequest(_) => spec_filter_kind(filter_type@) is None,
                        AppError::Internal(_) => spec_filter_kind(filter_type@) is Some,
                        AppError::NotFound(_) => false,
                    }
                },
            },
    {
        let id = random_uuid();
        Self::create_filter_with_id(store, id, pattern, filter_type, now)
    }

    /// Removes the filter with this id; `NotFound` exactly when none carries
    /// it.
    pub fn delete_filter(store: &mut Store, id: &String) -> (r: Result<(), AppError>)
        requires
            old(store)@.wf(),
        ensures
            final(store)@.wf(),
            match r {
                Ok(_) => {
                    &&& exists|i: int|
                        {
                            &&& 0 <= i < old(store)@.filters.len()
                            &&& (#[trigger] old(store)@.filters[i]).id@ == id@
                            &&& final(store)@ == old(store)@.with_filters(
                                old(store)@.filters.remove(i),
                            )
                        }
                    &&& !has_filter(final(store)@.filters, id@)
                },
                Err(e) => {
                    &&& *final(store) == *old(store)
                    &&& e is NotFound
                    &&& !has_filter(old(store)@.filters, id@)
                },
            },
    {
        match filter_index(&store.filters, id) {
            None => Err(AppError::not_found_named("Email filter '", id, "' not found")),
            Some(i) => {
                store.filters.remove(i);
                proof {
                    let m0 = old(store)@;
                    let m1 = final(store)@;
                    assert(m1 =~= m0.with_filters(m0.filters.remove(i as int)));
                    assert forall|a: int, b: int|
                        0 <= a < b < m1.filters.len() implies m1.filters[a].id@
                        != m1.filters[b].id@ by {
                        let a0: int = if a < i { a } else { a + 1 };
                        let b0: int = if b < i { b } else { b + 1 };
                        assert(m0.filters[a0].id@ != m0.filters[b0].id@);
                    }
                    assert forall|a: int|
                        0 <= a < m1.filters.len() implies (#[trigger] m1.filters[a]).id@
                        != id@ by {
                        let a0: int = if a < i { a } else { a + 1 };
                        assert(m1.filters[a] == m0.filters[a0]);
                        if a0 < i {
                            assert(m0.filters[a0].id@ != m0.filters[i as int].id@);
                        } else {
                            assert(m0.filters[i as int].id@ != m0.filters[a0].id@);
                        }
                    }
                }
                Ok(())
            },
        }
    }
}

// ---------------------------------------------------------------------------
// Inbound processing
// ---------------------------------------------------------------------------

/// `s`, or the placeholder when it is empty.
pub open spec fn effective(s: Seq<char>, placeholder: Seq<char>) -> Seq<char> {
    if s.len() == 0 {
        placeholder
    } else {
        s
    }
}

/// The notes block recorded on every document an email produces.
pub open spec fn notes_of(sender: Seq<char>, subject: Seq<char>) -> Seq<char> {
    "\u{1F4E7} Email de: "@ + sender + "\n\u{1F4CB} Assunto: "@ + subject
}

/// The generated storage name of a saved attachment.
pub open spec fn email_path(now: int, suffix: Seq<char>, name: Seq<char>, ctype: Seq<char>) -> Seq<
    char,
> {
    upload_stamp(now) + "_"@ + suffix + "."@ + spec_email_extension(name, ctype)
}

/// What holds of every document a processed email leaves behind.
pub open spec fn saved_attachment_doc(
    d: Document,
    target: Option<Seq<char>>,
    notes: Seq<char>,
    now: i64,
) -> bool {
    &&& crate::model::opt_str_view(d.project_id) == target
    &&& (d.notes matches Some(n) && n@ == notes)
    &&& d.uploaded_at == now
    &&& d.status is Default
    &&& d.category is None
    &&& d.audio_path is None
}

/// How many of the attachments the filters reject.
pub open spec fn count_rejected(filters: Seq<EmailFilter>, atts: Seq<Attachment>) -> nat
    decreases atts.len(),
{
    if atts.len() == 0 {
        0
    } else {
        count_rejected(filters, atts.drop_last()) + (if rejected(
            filters,
            atts.last().filename@,
            atts.last().size,
        ) {
            1nat
        } else {
            0nat
        })
    }
}

/// The outcome of one inbound email.
#[derive(Debug)]
pub struct EmailProcessingResult {
    pub sender: String,
    pub subject: String,
    pub documents_created: usize,
    pub documents_filtered: usize,
}

impl EmailService {
    /// Records one surviving attachment as a document, under a caller-chosen
    /// id and file-name suffix: refused (with an internal error) when the id
    /// or the generated path is already taken.
    pub fn save_attachment_as(
        store: &mut Store,
        doc_id: String,
        suffix: &String,
        original_name: &String,
        content_type: &String,
        notes: &String,
        project_id: Option<&String>,
        now: i64,
    ) -> (r: Result<Document, AppError>)
        requires
            old(store)@.wf(),
            valid_time(now),
        ensures
            final(store)@.wf(),
            match r {
                Ok(d) => {
                    &&& d.id@ == doc_id@
                    &&& !has_doc(old(store)@.docs, doc_id@)
                    &&& d.file_path@ == email_path(
                        now as int,
                        suffix@,
                        original_name@,
                        content_type@,
                    )
                    &&& !has_file(old(store)@.files, d.file_path@)
                    &&& d.file_type@ == spec_ctype_category(content_type@)
                    &&& d.original_name@ == original_name@
                    &&& saved_attachment_doc(
                        d,
                        crate::document::opt_key(project_id),
                        notes@,
                        now,
                    )
                    &&& final(store)@ == old(store)@.with_docs_files(
                        old(store)@.docs.push(d),
                        old(store)@.files.push(d.file_path),
                    )
                },
                Err(e) => {
                    &&& *final(store) == *old(store)
                    &&& e is Internal
                    &&& (has_doc(old(store)@.docs, doc_id@) || has_file(
                        old(store)@.files,
                        email_path(now as int, suffix@, original_name@, content_type@),
                    ))
                },
            },
    {
        let mut path = crate::clock::format_upload_stamp(now);
        path.append("_");
        path.append(suffix.as_str());
        path.append(".");
        let ext = Self::get_extension(original_name.as_str(), content_type.as_str());
        path.append(ext.as_str());
        assert(path@ =~= email_path(now as int, suffix@, original_name@, content_type@));
        if doc_index(&store.docs, &doc_id).is_some() {
            return Err(AppError::Internal(String::from_str("Document id already taken")));
        }
        if file_exists(&store.files, &path) {
            return Err(AppError::Internal(String::from_str("Generated file path already taken")));
        }
        let file_type = Self::categorize_content_type(content_type.as_str());
        let d = Document {
            id: doc_id,
            project_id: match project_id {
                Some(p) => Some(p.clone()),
                None => None,
            },
            file_path: path,
            file_type,
            original_name: original_name.clone(),
            uploaded_at: now,
            notes: Some(notes.clone()),
            status: DocStatus::Default,
            category: None,
            audio_path: None,
        };
        let out = d.duplicate();
        let path_copy = d.file_path.clone();
        store.docs.push(d);
        store.files.push(path_copy);
        proof {
            assert(final(store)@ =~= old(store)@.with_docs_files(
                old(store)@.docs.push(out),
                old(store)@.files.push(out.file_path),
            ));
            crate::model::lemma_push_doc_wf(old(store)@, final(store)@, out);
        }
        Ok(out)
    }

    /// Records one surviving attachment as a document under fresh random
    /// names. Success is not owed: a drawn id or path can collide, which
    /// surfaces as an internal error.
    pub fn save_attachment(
        store: &mut Store,
        original_name: &String,
        content_type: &String,
        notes: &String,
        project_id: Option<&String>,
        now: i64,
    ) -> (r: Result<Document, AppError>)
        requires
            old(store)@.wf(),
            valid_time(now),
        ensures
            final(store)@.wf(),
            match r {
                Ok(d) => {
                    &&& d.file_type@ == spec_ctype_category(content_type@)
                    &&& d.original_name@ == original_name@
                    &&& saved_attachment_doc(
                        d,
                        crate::document::opt_key(project_id),
                        notes@,
                        now,
                    )
                    &&& (exists|sfx: Seq<char>|
                        sfx.len() == 4 && d.file_path@ == email_path(
                            now as int,
                            sfx,
                            original_name@,
                            content_type@,
                        ))
                    &&& !has_doc(old(store)@.docs, d.id@)
                    &&& !has_file(old(store)@.files, d.file_path@)
                    &&& final(store)@ == old(store)@.with_docs_files(
                        old(store)@.docs.push(d),
                        old(store)@.files.push(d.file_path),
                    )
                },
                Err(e) => *final(store) == *old(store) && e is Internal,
            },
    {
        let doc_id = random_uuid();
        let suffix_source = random_uuid();
        let suffix = String::from_str(suffix_source.as_str().substring_char(0, 4));
        let r = Self::save_attachment_as(
            store,
            doc_id,
            &suffix,
            original_name,
            content_type,
            notes,
            project_id,
            now,
        );
        proof {
            if r is Ok {
                let d = r->Ok_0;
                assert(suffix@.len() == 4 && d.file_path@ == email_path(
                    now as int,
                    suffix@,
                    original_name@,
                    content_type@,
                ));
            }
        }
        r
    }

    /// Processes one inbound email: resolves the routing target from the
    /// sender, drops the attachments the filters reject, and records each
    /// surviving attachment as a document. One failed save skips only that
    /// attachment. Beside the counts, the caller gets, for each attachment in
    /// order, the storage path it must now write the payload to (`None`:
    /// filtered out or not saved).
    pub fn process_inbound_email(
        store: &mut Store,
        sender: &String,
        subject: &String,
        attachments: &Vec<Attachment>,
        now: i64,
    ) -> (r: (EmailProcessingResult, Vec<Option<String>>))
        requires
            old(store)@.wf(),
            valid_time(now),
        ensures
            final(store)@.wf(),
            final(store)@ == old(store)@.with_docs_files(final(store)@.docs, final(store)@.files),
            r.0.sender@ == effective(sender@, "unknown@email.com"@),
            r.0.subject@ == effective(subject@, "Email sem assunto"@),
            r.1@.len() == attachments@.len(),
            r.0.documents_filtered == count_rejected(old(store)@.filters, attachments@),
            old(store)@.docs.len() + r.0.documents_created == final(store)@.docs.len(),
            final(store)@.docs.take(old(store)@.docs.len() as int) == old(store)@.docs,
            forall|k: int|
                old(store)@.docs.len() <= k < final(store)@.docs.len() ==> saved_attachment_doc(
                    #[trigger] final(store)@.docs[k],
                    crate::model::opt_str_view(
                        route_of(old(store)@.rules, effective(sender@, "unknown@email.com"@)),
                    ),
                    notes_of(
                        effective(sender@, "unknown@email.com"@),
                        effective(subject@, "Email sem assunto"@),
                    ),
                    now,
                ),
            forall|j: int|
                0 <= j < attachments@.len() && rejected(
                    old(store)@.filters,
                    (#[trigger] attachments@[j]).filename@,
                    attachments@[j].size,
                ) ==> r.1@[j] is None,
            forall|j: int|
                0 <= j < attachments@.len() ==> ((#[trigger] r.1@[j]) is Some ==> !rejected(
                    old(store)@.filters,
                    attachments@[j].filename@,
                    attachments@[j].size,
                ) && has_file(final(store)@.files, r.1@[j]->0@)),
            r.0.documents_created + r.0.documents_filtered <= attachments@.len(),
    {
        let eff_sender = if sender.as_str().unicode_len() == 0 {
            String::from_str("unknown@email.com")
        } else {
            sender.clone()
        };
        let eff_subject = if subject.as_str().unicode_len() == 0 {
            String::from_str("Email sem assunto")
        } else {
            subject.clone()
        };
        let mut notes = String::from_str("\u{1F4E7} Email de: ");
        notes.append(eff_sender.as_str());
        notes.append("\n\u{1F4CB} Assunto: ");
        notes.append(eff_subject.as_str());
        assert(notes@ =~= notes_of(eff_sender@, eff_subject@));
        let target: Option<String> = match Self::find_matching_rule(store, eff_sender.as_str()) {
            Some(rule) => rule.project_id,
            None => None,
        };
        let ghost m0 = old(store)@;
        let ghost tview = crate::model::opt_str_view(route_of(m0.rules, eff_sender@));
        assert(crate::model::opt_str_view(target) == tview);
        let mut paths: Vec<Option<String>> = Vec::new();
        let mut created: usize = 0;
        let mut filtered: usize = 0;
        let mut j: usize = 0;
        proof {
            assert(attachments@.take(0) =~= Seq::<Attachment>::empty());
        }
        while j < attachments.len()
            invariant
                j <= attachments@.len(),
                valid_time(now),
                store@.wf(),
                store@ == m0.with_docs_files(store@.docs, store@.files),
                crate::model::opt_str_view(target) == tview,
                notes@ == notes_of(eff_sender@, eff_subject@),
                paths@.len() == j,
                filtered == count_rejected(m0.filters, attachments@.take(j as int)),
                m0.docs.len() + created == store@.docs.len(),
                store@.docs.take(m0.docs.len() as int) == m0.docs,
                created + filtered <= j,
                forall|k: int|
                    m0.docs.len() <= k < store@.docs.len() ==> saved_attachment_doc(
                        #[trigger] store@.docs[k],
                        tview,
                        notes_of(eff_sender@, eff_subject@),
                        now,
                    ),
                forall|t: int|
                    0 <= t < j && rejected(
                        m0.filters,
                        (#[trigger] attachments@[t]).filename@,
                        attachments@[t].size,
                    ) ==> paths@[t] is None,
                forall|t: int|
                    0 <= t < j ==> ((#[trigger] paths@[t]) is Some ==> !rejected(
                        m0.filters,
                        attachments@[t].filename@,
                        attachments@[t].size,
                    ) && has_file(store@.files, paths@[t]->0@)),
            decreases attachments@.len() - j,
        {
            let ghost pre = store@;
            proof {
                assert(attachments@.take(j + 1).drop_last() =~= attachments@.take(j as int));
                assert(attachments@.take(j + 1).last() == attachments@[j as int]);
            }
            let att = &attachments[j];
            if Self::should_filter_attachment(store, att.filename.as_str(), att.size) {
                filtered += 1;
                paths.push(None);
            } else {
                let saved = Self::save_attachment(
                    store,
                    &att.filename,
                    &att.content_type,
                    &notes,
                    match &target {
                        Some(t) => Some(t),
                        None => None,
                    },
                    now,
                );
                match saved {
                    Ok(d) => {
                        created += 1;
                        paths.push(Some(d.file_path));
                        proof {
                            assert(store@.docs == pre.docs.push(d));
                            assert(store@.docs.take(m0.docs.len() as int) =~= m0.docs);
                            assert forall|t: int|
                                0 <= t < paths@.len() && (#[trigger] paths@[t]) is Some
                                implies !rejected(
                                m0.filters,
                                attachments@[t].filename@,
                                attachments@[t].size,
                            ) && has_file(store@.files, paths@[t]->0@) by {
                                let p = paths@[t]->0;
                                if t < paths@.len() - 1 {
                                    assert(has_file(pre.files, p@));
                                    let w = choose|w: int|
                                        0 <= w < pre.files.len() && (#[trigger] pre.files[w])@
                                            == p@;
                                    assert(store@.files[w]@ == p@);
                                } else {
                                    assert(store@.files[store@.files.len() - 1]@ == d.file_path@);
                                }
                            }
                        }
                    },
                    Err(_) => {
                        paths.push(None);
                    },
                }
            }
            j += 1;
        }
        proof {
            assert(attachments@.take(attachments@.len() as int) =~= attachments@);
        }
        let result = EmailProcessingResult {
            sender: eff_sender,
            subject: eff_subject,
            documents_created: created,
            documents_filtered: filtered,
        };
        (result, paths)
    }
}

// ---------------------------------------------------------------------------
// Webhook field classification
// ---------------------------------------------------------------------------

/// What a multipart field of an inbound-email webhook stands for. Providers
/// name the same things differently; the mapping is by name shape.
#[derive(Debug, Clone, Copy, PartialEq, Eq, Structural)]
pub enum FieldRole {
    Sender,
    Subject,
    Body,
    Attachment,
    Other,
}

/// The role a field name carries: `from`, `subject`, one of the body names,
/// an `attachment`-prefixed or small numeric name, or nothing of interest.
pub open spec fn spec_field_role(name: Seq<char>) -> FieldRole {
    if name == "from"@ {
        FieldRole::Sender
    } else if name == "subject"@ {
        FieldRole::Subject
    } else if name == "body-plain"@ || name == "text"@ || name == "body-html"@ {
        FieldRole::Body
    } else if starts_with_seq(name, "attachment"@) || (all_digits(name) && dec_value(name)
        <= 0x7fff_ffff) {
        FieldRole::Attachment
    } else {
        FieldRole::Other
    }
}

/// Classifies one multipart field name.
pub fn classify_email_field(name: &str) -> (r: FieldRole)
    ensures
        r == spec_field_role(name@),
{
    if str_eq(name, "from") {
        FieldRole::Sender
    } else if str_eq(name, "subject") {
        FieldRole::Subject
    } else if str_eq(name, "body-plain") || str_eq(name, "text") || str_eq(name, "body-html") {
        FieldRole::Body
    } else if starts_with_str(name, "attachment") {
        FieldRole::Attachment
    } else {
        match parse_u64(name) {
            Some(v) => {
                if v <= 0x7fff_ffff {
                    FieldRole::Attachment
                } else {
                    FieldRole::Other
                }
            },
            None => FieldRole::Other,
        }
    }
}

} // verus!
