use crate::order::{lemma_filter_step, ordered, sort_rows, RowOrder};
use crate::store::{
    copy_opt_string, first_match, lemma_first_match, lemma_no_match, store_wf, ChunkStore, StoreError,
    StoreModel,
};
use crate::text::chars_of;
use crate::types::{BusinessRule, ErrorLog};
use vstd::prelude::*;

verus! {

/// Strict lexicographic order on texts, by code point.
pub open spec fn text_less(a: Seq<char>, b: Seq<char>) -> bool
    decreases a.len(),
{
    if b.len() == 0 {
        false
    } else if a.len() == 0 {
        true
    } else if a[0] != b[0] {
        (a[0] as int) < (b[0] as int)
    } else {
        text_less(a.drop_first(), b.drop_first())
    }
}

/// No two texts are each less than the other.
pub proof fn lemma_text_less_asymmetric(a: Seq<char>, b: Seq<char>)
    ensures
        text_less(a, b) ==> !text_less(b, a),
    decreases a.len(),
{
    if a.len() > 0 && b.len() > 0 && a[0] == b[0] {
        lemma_text_less_asymmetric(a.drop_first(), b.drop_first());
    }
}

/// If `a` is less than `c`, any `b` is above `a` or below `c`.
pub proof fn lemma_text_less_negatively_transitive(a: Seq<char>, b: Seq<char>, c: Seq<char>)
    ensures
        text_less(a, c) ==> text_less(a, b) || text_less(b, c),
    decreases a.len(),
{
    if a.len() > 0 && b.len() > 0 && c.len() > 0 && a[0] == b[0] && b[0] == c[0] {
        lemma_text_less_negatively_transitive(a.drop_first(), b.drop_first(), c.drop_first());
    }
}

proof fn lemma_text_less_skip(a: Seq<char>, b: Seq<char>, i: int)
    requires
        0 <= i < a.len(),
        i < b.len(),
        a[i] == b[i],
    ensures
        text_less(a.skip(i), b.skip(i)) == text_less(a.skip(i + 1), b.skip(i + 1)),
{
    assert(a.skip(i).drop_first() =~= a.skip(i + 1));
    assert(b.skip(i).drop_first() =~= b.skip(i + 1));
}

/// Scalar-value order on characters.
fn char_lt(a: char, b: char) -> (r: bool)
    ensures
        r == ((a as int) < (b as int)),
{
    (a as u32) < (b as u32)
}

/// Exec form of [`text_less`].
pub fn text_less_exec(a: &str, b: &str) -> (r: bool)
    ensures
        r == text_less(a@, b@),
{
    let av = chars_of(a);
    let bv = chars_of(b);
    let mut i: usize = 0;
    assert(av@.skip(0) =~= av@);
    assert(bv@.skip(0) =~= bv@);
    while i < av.len() && i < bv.len()
        invariant
            av@ == a@,
            bv@ == b@,
            0 <= i <= av@.len(),
            i <= bv@.len(),
            text_less(av@, bv@) == text_less(av@.skip(i as int), bv@.skip(i as int)),
        decreases av@.len() - i,
    {
        assert(av@.skip(i as int)[0] == av@[i as int]);
        assert(bv@.skip(i as int)[0] == bv@[i as int]);
        let ca = av[i];
        let cb = bv[i];
        if ca != cb {
            assert(av@.skip(i as int).len() > 0 && bv@.skip(i as int).len() > 0);
            return char_lt(ca, cb);
        }
        proof {
            lemma_text_less_skip(av@, bv@, i as int);
        }
        i = i + 1;
    }
    assert(av@.skip(i as int).len() == 0 || bv@.skip(i as int).len() == 0);
    i < bv.len()
}

/// Business rules by entity name.
pub struct ByEntity;

impl RowOrder<BusinessRule> for ByEntity {
    open spec fn before(a: BusinessRule, b: BusinessRule) -> bool {
        text_less(a.entity_name@, b.entity_name@)
    }

    fn before_exec(a: &BusinessRule, b: &BusinessRule) -> (r: bool) {
        text_less_exec(a.entity_name.as_str(), b.entity_name.as_str())
    }

    proof fn lemma_asymmetric(a: BusinessRule, b: BusinessRule) {
        lemma_text_less_asymmetric(a.entity_name@, b.entity_name@);
    }

    proof fn lemma_negatively_transitive(a: BusinessRule, b: BusinessRule, c: BusinessRule) {
        lemma_text_less_negatively_transitive(a.entity_name@, b.entity_name@, c.entity_name@);
    }
}

/// Business rules oldest first.
pub struct ByCreation;

impl RowOrder<BusinessRule> for ByCreation {
    open spec fn before(a: BusinessRule, b: BusinessRule) -> bool {
        a.created_at < b.created_at
    }

    fn before_exec(a: &BusinessRule, b: &BusinessRule) -> (r: bool) {
        a.created_at < b.created_at
    }

    proof fn lemma_asymmetric(a: BusinessRule, b: BusinessRule) {
    }

    proof fn lemma_negatively_transitive(a: BusinessRule, b: BusinessRule, c: BusinessRule) {
    }
}

/// Error logs most recently seen first.
pub struct ByLastSeen;

impl RowOrder<ErrorLog> for ByLastSeen {
    open spec fn before(a: ErrorLog, b: ErrorLog) -> bool {
        a.last_seen > b.last_seen
    }

    fn before_exec(a: &ErrorLog, b: &ErrorLog) -> (r: bool) {
        a.last_seen > b.last_seen
    }

    proof fn lemma_asymmetric(a: ErrorLog, b: ErrorLog) {
    }

    proof fn lemma_negatively_transitive(a: ErrorLog, b: ErrorLog, c: ErrorLog) {
    }
}

/// A business rule row as stored.
pub open spec fn new_rule_row(rule: BusinessRule, id: int, now: i64) -> BusinessRule {
    BusinessRule { id: Some(id as i64), created_at: now, updated_at: now, ..rule }
}

/// A freshly proposed rule: no description or correction yet, not validated.
pub open spec fn proposed_rule(
    project_path: String,
    entity_name: String,
    file_path: String,
    ai_interpretation: String,
    rule_description: String,
) -> BusinessRule {
    BusinessRule {
        id: None,
        project_path,
        entity_name,
        file_path,
        rule_description,
        ai_interpretation,
        user_correction: None,
        is_validated: false,
        validation_date: None,
        created_at: 0,
        updated_at: 0,
    }
}

/// The rule after a person validated it.
pub open spec fn validated_rule(
    row: BusinessRule,
    rule_description: String,
    user_correction: Option<String>,
    now: i64,
) -> BusinessRule {
    BusinessRule {
        rule_description,
        user_correction,
        is_validated: true,
        validation_date: Some(now),
        updated_at: now,
        ..row
    }
}

/// The rule belongs to `project`.
pub open spec fn rule_of(project: Seq<char>) -> spec_fn(BusinessRule) -> bool {
    |r: BusinessRule| r.project_path@ == project
}

/// The rule belongs to `project` and awaits validation.
pub open spec fn pending_rule_of(project: Seq<char>) -> spec_fn(BusinessRule) -> bool {
    |r: BusinessRule| r.project_path@ == project && !r.is_validated
}

/// An unresolved report of the same `(project, type, message)` as `e`.
pub open spec fn same_open_error(e: ErrorLog) -> spec_fn(ErrorLog) -> bool {
    |x: ErrorLog|
        !x.is_resolved && x.project_path@ == e.project_path@ && x.error_type@ == e.error_type@
            && x.message@ == e.message@
}

/// An error row as first stored: seen once, now, unresolved.
pub open spec fn new_error_row(e: ErrorLog, id: int, now: i64) -> ErrorLog {
    ErrorLog {
        id: Some(id as i64),
        occurrence_count: 1,
        first_seen: now,
        last_seen: now,
        is_resolved: false,
        ..e
    }
}

/// The error report deduplication: bump the unresolved row with the same
/// `(project, type, message)`, or append a new row.
pub open spec fn upsert_error_spec(m: StoreModel, e: ErrorLog, now: i64) -> (
    StoreModel,
    Result<i64, StoreError>,
) {
    match first_match(m.errors, same_open_error(e)) {
        Some(i) => if m.errors[i].occurrence_count < i32::MAX {
            (
                StoreModel {
                    errors: m.errors.update(
                        i,
                        ErrorLog {
                            occurrence_count: (m.errors[i].occurrence_count + 1) as i32,
                            last_seen: now,
                            ..m.errors[i]
                        },
                    ),
                    ..m
                },
                Ok(m.errors[i].id.unwrap()),
            )
        } else {
            (m, Err(StoreError::CounterOverflow))
        },
        None => if m.next_error_id < i64::MAX {
            (
                StoreModel {
                    errors: m.errors.push(new_error_row(e, m.next_error_id, now)),
                    next_error_id: m.next_error_id + 1,
                    ..m
                },
                Ok(m.next_error_id as i64),
            )
        } else {
            (m, Err(StoreError::IdsExhausted))
        },
    }
}

/// The store after reporting `e` once at each of `times`.
pub open spec fn report_error_at(m: StoreModel, e: ErrorLog, times: Seq<i64>) -> StoreModel
    decreases times.len(),
{
    if times.len() == 0 {
        m
    } else {
        upsert_error_spec(report_error_at(m, e, times.drop_last()), e, times.last()).0
    }
}

/// Exactly one unresolved row has the key of `e`, at index `i`.
pub open spec fn single_open_error_at(rows: Seq<ErrorLog>, e: ErrorLog, i: int) -> bool {
    &&& 0 <= i < rows.len()
    &&& same_open_error(e)(rows[i])
    &&& forall|j: int| 0 <= j < rows.len() && j != i ==> !same_open_error(e)(#[trigger] rows[j])
}

/// Reporting the same unresolved error `n` times leaves one row for it, with
/// an occurrence count of `n`.
pub proof fn law_error_report_dedup(m: StoreModel, e: ErrorLog, times: Seq<i64>)
    requires
        forall|j: int| 0 <= j < m.errors.len() ==> !same_open_error(e)(#[trigger] m.errors[j]),
        forall|j: int| 0 <= j < m.errors.len() ==> (#[trigger] m.errors[j]).id is Some,
        m.next_error_id < i64::MAX,
        1 <= times.len() <= i32::MAX,
    ensures
        single_open_error_at(report_error_at(m, e, times).errors, e, m.errors.len() as int),
        report_error_at(m, e, times).errors[m.errors.len() as int].occurrence_count
            == times.len(),
    decreases times.len(),
{
    let k = m.errors.len() as int;
    if times.len() == 1 {
        assert(times.drop_last().len() == 0);
        assert(report_error_at(m, e, times.drop_last()) == m);
        let r = report_error_at(m, e, times);
        assert(first_match(m.errors, same_open_error(e)) is None);
        assert forall|j: int| 0 <= j < r.errors.len() && j != k implies !same_open_error(e)(
            #[trigger] r.errors[j],
        ) by {
            assert(r.errors[j] == m.errors[j]);
        }
    } else {
        let prev = times.drop_last();
        law_error_report_dedup(m, e, prev);
        let p = report_error_at(m, e, prev);
        assert forall|j: int| 0 <= j < k implies !same_open_error(e)(#[trigger] p.errors[j]) by {}
        lemma_first_at(p.errors, same_open_error(e), k);
        let r = report_error_at(m, e, times);
        assert(r == upsert_error_spec(p, e, times.last()).0);
        assert forall|j: int| 0 <= j < r.errors.len() && j != k implies !same_open_error(e)(
            #[trigger] r.errors[j],
        ) by {
            assert(r.errors[j] == p.errors[j]);
        }
    }
}

proof fn lemma_first_at<T>(s: Seq<T>, p: spec_fn(T) -> bool, i: int)
    requires
        0 <= i < s.len(),
        p(s[i]),
        forall|j: int| 0 <= j < s.len() && j != i ==> !p(#[trigger] s[j]),
    ensures
        first_match(s, p) == Some(i),
{
    let c = choose|k: int|
        0 <= k < s.len() && p(s[k]) && forall|j: int| 0 <= j < k ==> !p(#[trigger] s[j]);
    assert(0 <= c < s.len() && p(s[c]));
}

/// Rows with identifier `id` are validated; others stay.
pub open spec fn validate_rows(
    id: i64,
    rule_description: String,
    user_correction: Option<String>,
    now: i64,
) -> spec_fn(BusinessRule) -> BusinessRule {
    |r: BusinessRule|
        if r.id == Some(id) {
            validated_rule(r, rule_description, user_correction, now)
        } else {
            r
        }
}

/// Rows with identifier `id` are marked resolved; others stay.
pub open spec fn resolve_rows(id: i64) -> spec_fn(ErrorLog) -> ErrorLog {
    |e: ErrorLog|
        if e.id == Some(id) {
            ErrorLog { is_resolved: true, ..e }
        } else {
            e
        }
}

/// The error belongs to `project`, and is unresolved unless
/// `include_resolved`.
pub open spec fn error_listed(project: Seq<char>, include_resolved: bool) -> spec_fn(ErrorLog) -> bool {
    |e: ErrorLog| e.project_path@ == project && (include_resolved || !e.is_resolved)
}

impl ChunkStore {
    /// Stores a business rule as a new row; returns its identifier.
    pub fn upsert_business_rule(&mut self, rule: &BusinessRule, now: i64) -> (r: Result<i64, StoreError>)
        requires
            store_wf(old(self)@),
        ensures
            store_wf(final(self)@),
            old(self).next_rule_id < i64::MAX ==> r == Ok::<i64, StoreError>(old(self).next_rule_id)
                && final(self)@ == (StoreModel {
                rules: old(self)@.rules.push(new_rule_row(*rule, old(self).next_rule_id as int, now)),
                next_rule_id: old(self)@.next_rule_id + 1,
                ..old(self)@
            }),
            old(self).next_rule_id == i64::MAX ==> r == Err::<i64, StoreError>(StoreError::IdsExhausted)
                && final(self)@ == old(self)@,
    {
        if self.next_rule_id == i64::MAX {
            return Err(StoreError::IdsExhausted);
        }
        let id = self.next_rule_id;
        let mut row = rule.copy();
        row.id = Some(id);
        row.created_at = now;
        row.updated_at = now;
        self.rules.push(row);
        self.next_rule_id = id + 1;
        Ok(id)
    }

    /// Proposes a rule for validation: empty description, not validated.
    pub fn propose_business_rule(
        &mut self,
        project_path: &str,
        entity_name: &str,
        file_path: &str,
        ai_interpretation: &str,
        now: i64,
    ) -> (r: Result<i64, StoreError>)
        requires
            store_wf(old(self)@),
        ensures
            store_wf(final(self)@),
            old(self).next_rule_id < i64::MAX ==> r == Ok::<i64, StoreError>(old(self).next_rule_id)
                && final(self)@.rules.len() == old(self)@.rules.len() + 1 && ({
                let row = final(self)@.rules.last();
                &&& final(self)@.rules.drop_last() == old(self)@.rules
                &&& final(self)@ == (StoreModel {
                    rules: old(self)@.rules.push(row),
                    next_rule_id: old(self)@.next_rule_id + 1,
                    ..old(self)@
                })
                &&& row.id == Some(old(self).next_rule_id)
                &&& row.project_path@ == project_path@
                &&& row.entity_name@ == entity_name@
                &&& row.file_path@ == file_path@
                &&& row.ai_interpretation@ == ai_interpretation@
                &&& row.rule_description@.len() == 0
                &&& row.user_correction is None
                &&& !row.is_validated
                &&& row.validation_date is None
                &&& row.created_at == now && row.updated_at == now
            }),
            old(self).next_rule_id == i64::MAX ==> r == Err::<i64, StoreError>(StoreError::IdsExhausted)
                && final(self)@ == old(self)@,
    {
        let rule = BusinessRule {
            id: None,
            project_path: String::from_str(project_path),
            entity_name: String::from_str(entity_name),
            file_path: String::from_str(file_path),
            rule_description: String::new(),
            ai_interpretation: String::from_str(ai_interpretation),
            user_correction: None,
            is_validated: false,
            validation_date: None,
            created_at: now,
            updated_at: now,
        };
        let r = self.upsert_business_rule(&rule, now);
        proof {
            if old(self).next_rule_id < i64::MAX {
                assert(final(self)@.rules.drop_last() =~= old(self)@.rules);
            }
        }
        r
    }

    /// Validates every rule with identifier `rule_id`: sets its description
    /// and correction, marks it validated at `now`.
    pub fn validate_business_rule(
        &mut self,
        rule_id: i64,
        rule_description: String,
        user_correction: Option<String>,
        now: i64,
    )
        requires
            store_wf(old(self)@),
        ensures
            store_wf(final(self)@),
            final(self)@.rules == old(self)@.rules.map_values(
                validate_rows(rule_id, rule_description, user_correction, now),
            ),
            final(self)@ == (StoreModel { rules: final(self)@.rules, ..old(self)@ }),
    {
        let description = rule_description;
        let ghost f = validate_rows(rule_id, description, user_correction, now);
        let mut out: Vec<BusinessRule> = Vec::new();
        let n = self.rules.len();
        let mut i: usize = 0;
        while i < n
            invariant
                n == self.rules@.len(),
                0 <= i <= n,
                self@ == old(self)@,
                f == validate_rows(rule_id, description, user_correction, now),
                out@ == self.rules@.take(i as int).map_values(f),
            decreases n - i,
        {
            let mut row = self.rules[i].copy();
            if row.id == Some(rule_id) {
                row.rule_description = description.clone();
                row.user_correction = copy_opt_string(&user_correction);
                row.is_validated = true;
                row.validation_date = Some(now);
                row.updated_at = now;
            }
            out.push(row);
            proof {
                assert(self.rules@.take(i + 1).map_values(f) =~= self.rules@.take(i as int).map_values(f).push(f(self.rules@[i as int])));
            }
            i = i + 1;
        }
        assert(self.rules@.take(n as int) =~= self.rules@);
        self.rules = out;
    }

    /// The rules of `project`, ordered by entity name.
    pub fn get_business_rules(&self, project_path: &str) -> (r: Vec<BusinessRule>)
        ensures
            r@ == ordered::<BusinessRule, ByEntity>(self.rules@.filter(rule_of(project_path@))),
    {
        let project = String::from_str(project_path);
        let ghost pred = rule_of(project_path@);
        let mut out: Vec<BusinessRule> = Vec::new();
        let n = self.rules.len();
        let mut i: usize = 0;
        while i < n
            invariant
                n == self.rules@.len(),
                0 <= i <= n,
                project@ == project_path@,
                pred == rule_of(project_path@),
                out@ == self.rules@.take(i as int).filter(pred),
            decreases n - i,
        {
            proof {
                lemma_filter_step(self.rules@, i as int, pred);
            }
            if self.rules[i].project_path == project {
                out.push(self.rules[i].copy());
            }
            i = i + 1;
        }
        assert(self.rules@.take(n as int) =~= self.rules@);
        sort_rows::<BusinessRule, ByEntity>(out)
    }

    /// The rules of `project` awaiting validation, oldest first.
    pub fn get_pending_rules(&self, project_path: &str) -> (r: Vec<BusinessRule>)
        ensures
            r@ == ordered::<BusinessRule, ByCreation>(
                self.rules@.filter(pending_rule_of(project_path@)),
            ),
    {
        let project = String::from_str(project_path);
        let ghost pred = pending_rule_of(project_path@);
        let mut out: Vec<BusinessRule> = Vec::new();
        let n = self.rules.len();
        let mut i: usize = 0;
        while i < n
            invariant
                n == self.rules@.len(),
                0 <= i <= n,
                project@ == project_path@,
                pred == pending_rule_of(project_path@),
                out@ == self.rules@.take(i as int).filter(pred),
            decreases n - i,
        {
            proof {
                lemma_filter_step(self.rules@, i as int, pred);
            }
            if self.rules[i].project_path == project && !self.rules[i].is_validated {
                out.push(self.rules[i].copy());
            }
            i = i + 1;
        }
        assert(self.rules@.take(n as int) =~= self.rules@);
        sort_rows::<BusinessRule, ByCreation>(out)
    }

    /// The first unresolved error row with the same key as `e`.
    fn find_open_error(&self, e: &ErrorLog) -> (r: Option<usize>)
        ensures
            match r {
                Some(i) => i < self.errors@.len() && first_match(self.errors@, same_open_error(*e))
                    == Some(i as int),
                None => first_match(self.errors@, same_open_error(*e)) is None,
            },
    {
        let n = self.errors.len();
        let mut i: usize = 0;
        while i < n
            invariant
                n == self.errors@.len(),
                0 <= i <= n,
                forall|j: int| 0 <= j < i ==> !same_open_error(*e)(#[trigger] self.errors@[j]),
            decreases n - i,
        {
            let x = &self.errors[i];
            if !x.is_resolved && x.project_path == e.project_path && x.error_type == e.error_type
                && x.message == e.message {
                proof {
                    lemma_first_match(self.errors@, same_open_error(*e), i as int);
                }
                return Some(i);
            }
            i = i + 1;
        }
        proof {
            lemma_no_match(self.errors@, same_open_error(*e));
        }
        None
    }

    /// Records an error report: the unresolved row with the same
    /// `(project, type, message)` counts one more occurrence and is seen
    /// `now`; without one, a new row is added with a count of one. Returns
    /// the row's identifier.
    pub fn upsert_error_log(&mut self, e: &ErrorLog, now: i64) -> (r: Result<i64, StoreError>)
        requires
            store_wf(old(self)@),
        ensures
            store_wf(final(self)@),
            (final(self)@, r) == upsert_error_spec(old(self)@, *e, now),
    {
        match self.find_open_error(e) {
            Some(i) => {
                if self.errors[i].occurrence_count == i32::MAX {
                    return Err(StoreError::CounterOverflow);
                }
                let mut row = self.errors.remove(i);
                let ghost old_row = row;
                row.occurrence_count = row.occurrence_count + 1;
                row.last_seen = now;
                let id = match row.id {
                    Some(x) => x,
                    None => 0,
                };
                self.errors.insert(i, row);
                assert(self.errors@ =~= old(self).errors@.update(
                    i as int,
                    ErrorLog {
                        occurrence_count: (old_row.occurrence_count + 1) as i32,
                        last_seen: now,
                        ..old_row
                    },
                ));
                assert(old(self).errors@[i as int].id is Some);
                assert forall|k: int| 0 <= k < self.errors@.len() implies (
                #[trigger] self.errors@[k]).id is Some by {
                    if k != i {
                        assert(self.errors@[k] == old(self).errors@[k]);
                    }
                }
                Ok(id)
            },
            None => {
                if self.next_error_id == i64::MAX {
                    return Err(StoreError::IdsExhausted);
                }
                let id = self.next_error_id;
                let mut row = e.copy();
                row.id = Some(id);
                row.occurrence_count = 1;
                row.first_seen = now;
                row.last_seen = now;
                row.is_resolved = false;
                self.errors.push(row);
                self.next_error_id = id + 1;
                Ok(id)
            },
        }
    }

    /// Reports an error (see [`ChunkStore::upsert_error_log`]).
    pub fn log_error(
        &mut self,
        project_path: String,
        error_type: String,
        message: String,
        file_path: Option<String>,
        entity_name: Option<String>,
        stacktrace: Option<String>,
        snapshot_id: Option<i64>,
        now: i64,
    ) -> (r: Result<i64, StoreError>)
        requires
            store_wf(old(self)@),
        ensures
            store_wf(final(self)@),
            (final(self)@, r) == upsert_error_spec(
                old(self)@,
                ErrorLog {
                    id: None,
                    project_path,
                    snapshot_id,
                    file_path,
                    entity_name,
                    error_type,
                    message,
                    stacktrace,
                    occurrence_count: 1,
                    first_seen: now,
                    last_seen: now,
                    is_resolved: false,
                },
                now,
            ),
    {
        let e = ErrorLog {
            id: None,
            project_path,
            snapshot_id,
            file_path,
            entity_name,
            error_type,
            message,
            stacktrace,
            occurrence_count: 1,
            first_seen: now,
            last_seen: now,
            is_resolved: false,
        };
        self.upsert_error_log(&e, now)
    }

    /// Marks every error row with identifier `error_id` resolved.
    pub fn resolve_error(&mut self, error_id: i64)
        requires
            store_wf(old(self)@),
        ensures
            store_wf(final(self)@),
            final(self)@ == (StoreModel {
                errors: old(self)@.errors.map_values(resolve_rows(error_id)),
                ..old(self)@
            }),
    {
        let ghost f = resolve_rows(error_id);
        let mut out: Vec<ErrorLog> = Vec::new();
        let n = self.errors.len();
        let mut i: usize = 0;
        while i < n
            invariant
                n == self.errors@.len(),
                0 <= i <= n,
                self@ == old(self)@,
                store_wf(self@),
                f == resolve_rows(error_id),
                out@ == self.errors@.take(i as int).map_values(f),
            decreases n - i,
        {
            let mut row = self.errors[i].copy();
            if row.id == Some(error_id) {
                row.is_resolved = true;
            }
            out.push(row);
            proof {
                assert(self.errors@.take(i + 1).map_values(f) =~= self.errors@.take(i as int).map_values(f).push(f(self.errors@[i as int])));
            }
            i = i + 1;
        }
        assert(self.errors@.take(n as int) =~= self.errors@);
        self.errors = out;
        assert forall|k: int| 0 <= k < self.errors@.len() implies (#[trigger] self.errors@[k]).id is Some by {
            assert(old(self).errors@[k].id is Some);
        }
    }

    /// The errors of `project` (resolved ones too if `include_resolved`),
    /// most recently seen first.
    pub fn get_error_logs(&self, project_path: &str, include_resolved: bool) -> (r: Vec<ErrorLog>)
        ensures
            r@ == ordered::<ErrorLog, ByLastSeen>(
                self.errors@.filter(error_listed(project_path@, include_resolved)),
            ),
    {
        let project = String::from_str(project_path);
        let ghost pred = error_listed(project_path@, include_resolved);
        let mut out: Vec<ErrorLog> = Vec::new();
        let n = self.errors.len();
        let mut i: usize = 0;
        while i < n
            invariant
                n == self.errors@.len(),
                0 <= i <= n,
                project@ == project_path@,
                pred == error_listed(project_path@, include_resolved),
                out@ == self.errors@.take(i as int).filter(pred),
            decreases n - i,
        {
            proof {
                lemma_filter_step(self.errors@, i as int, pred);
            }
            if self.errors[i].project_path == project && (include_resolved || !self.errors[i].is_resolved) {
                out.push(self.errors[i].copy());
            }
            i = i + 1;
        }
        assert(self.errors@.take(n as int) =~= self.errors@);
        sort_rows::<ErrorLog, ByLastSeen>(out)
    }

    /// The unresolved errors of `project`, most recently seen first.
    pub fn get_active_errors(&self, project_path: &str) -> (r: Vec<ErrorLog>)
        ensures
            r@ == ordered::<ErrorLog, ByLastSeen>(self.errors@.filter(error_listed(project_path@, false))),
    {
        self.get_error_logs(project_path, false)
    }
}

impl BusinessRule {
    /// A field-by-field copy.
    pub fn copy(&self) -> (r: BusinessRule)
        ensures
            r == *self,
    {
        BusinessRule {
            id: self.id,
            project_path: self.project_path.clone(),
            entity_name: self.entity_name.clone(),
            file_path: self.file_path.clone(),
            rule_description: self.rule_description.clone(),
            ai_interpretation: self.ai_interpretation.clone(),
            user_correction: copy_opt_string(&self.user_correction),
            is_validated: self.is_validated,
            validation_date: self.validation_date,
            created_at: self.created_at,
            updated_at: self.updated_at,
        }
    }
}

impl ErrorLog {
    /// A field-by-field copy.
    pub fn copy(&self) -> (r: ErrorLog)
        ensures
            r == *self,
    {
        ErrorLog {
            id: self.id,
            project_path: self.project_path.clone(),
            snapshot_id: self.snapshot_id,
            file_path: copy_opt_string(&self.file_path),
            entity_name: copy_opt_string(&self.entity_name),
            error_type: self.error_type.clone(),
            message: self.message.clone(),
            stacktrace: copy_opt_string(&self.stacktrace),
            occurrence_count: self.occurrence_count,
            first_seen: self.first_seen,
            last_seen: self.last_seen,
            is_resolved: self.is_resolved,
        }
    }
}

} // verus!
