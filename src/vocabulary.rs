use vstd::prelude::*;
use crate::cases::lemma_tables_later;
use crate::db::{clock_advanced, Database};
use crate::error::{DbError, Entity};
use crate::models::{AlertWord, ReplacementWord};
use crate::sorting::{listing_of, sort_rows};
use crate::table::{
    has_id, id_differs, lemma_take_push, lemma_wf_filter, lemma_wf_push, without_id, Record,
};

verus! {

/// Fields of a new alert word.
pub struct CreateAlertWordInput {
    pub keyword: String,
    pub category: String,
    pub description: Option<String>,
}

/// Fields of a new replacement word.
pub struct CreateReplacementWordInput {
    pub original: String,
    pub correct: String,
    pub category: String,
}

/// Keeps the alert words of category `category`.
pub open spec fn in_category(category: Seq<char>) -> spec_fn(AlertWord) -> bool {
    |w: AlertWord| w.category@ == category
}

/// All alert words, by keyword.
pub fn get_alert_words(db: &Database) -> (r: Vec<AlertWord>)
    requires
        db.wf(),
    ensures
        listing_of(r@, db.alert_words.rows@),
{
    sort_rows(db.alert_words.all())
}

/// The alert words of category `category`, by keyword.
pub fn get_alert_words_by_category(db: &Database, category: String) -> (r: Vec<AlertWord>)
    requires
        db.wf(),
    ensures
        listing_of(r@, db.alert_words.rows@.filter(in_category(category@))),
{
    let rows = &db.alert_words.rows;
    let ghost pred = in_category(category@);
    let mut found: Vec<AlertWord> = Vec::new();
    let mut k: usize = 0;
    while k < rows.len()
        invariant
            k <= rows@.len(),
            found@ == rows@.take(k as int).filter(pred),
            pred == in_category(category@),
        decreases rows@.len() - k,
    {
        proof {
            lemma_take_push(rows@, k as int);
            rows@.take(k as int).lemma_filter_push(rows@[k as int], pred);
        }
        if rows[k].category == category {
            found.push(rows[k].duplicate());
        }
        k = k + 1;
    }
    assert(rows@.take(k as int) =~= rows@);
    proof {
        lemma_wf_filter(rows@, db.alert_words.last_id, db.clock, pred);
    }
    sort_rows(found)
}

/// Inserts a new alert word and returns it.
pub fn create_alert_word(db: &mut Database, input: CreateAlertWordInput) -> (r: Result<AlertWord, DbError>)
    requires
        old(db).wf(),
    ensures
        final(db).wf(),
        match old(db).alert_words.spec_next_id() {
            None => r == Err::<AlertWord, DbError>(DbError::StorageFull) && *final(db) == *old(db),
            Some(id) => {
                &&& r == Ok::<AlertWord, DbError>(
                    (AlertWord {
                        id,
                        keyword: input.keyword,
                        category: input.category,
                        description: input.description,
                        created_at: final(db).clock,
                    }),
                )
                &&& final(db).alert_words.rows@ == old(db).alert_words.rows@.push(r->Ok_0)
                &&& clock_advanced(old(db).clock, final(db).clock)
                &&& final(db).same_except(old(db), set![Entity::AlertWord])
            },
        },
{
    let id = match db.alert_words.next_id() {
        Some(id) => id,
        None => return Err(DbError::StorageFull),
    };
    let ghost before = *db;
    let stamp = db.tick();
    let row = AlertWord {
        id,
        keyword: input.keyword,
        category: input.category,
        description: input.description,
        created_at: stamp,
    };
    let out = row.duplicate();
    proof {
        lemma_wf_push(before.alert_words.rows@, before.alert_words.last_id, before.clock, row, stamp);
        lemma_tables_later(before, *db);
    }
    db.alert_words.append(row);
    Ok(out)
}

/// Deletes alert word `id`; deleting one that does not exist changes nothing.
pub fn delete_alert_word(db: &mut Database, id: i32)
    requires
        old(db).wf(),
    ensures
        final(db).wf(),
        final(db).alert_words.rows@ == without_id(old(db).alert_words.rows@, id),
        final(db).alert_words.last_id == old(db).alert_words.last_id,
        !has_id(old(db).alert_words.rows@, id) ==> *final(db) == *old(db),
        final(db).clock == old(db).clock,
        final(db).same_except(old(db), set![Entity::AlertWord]),
{
    let ghost before = *db;
    db.alert_words.remove(id);
    proof {
        lemma_wf_filter(before.alert_words.rows@, before.alert_words.last_id, db.clock, id_differs(id));
    }
}

/// All replacement words, by the word they replace.
pub fn get_replacement_words(db: &Database) -> (r: Vec<ReplacementWord>)
    requires
        db.wf(),
    ensures
        listing_of(r@, db.replacement_words.rows@),
{
    sort_rows(db.replacement_words.all())
}

/// Inserts a new replacement word and returns it.
pub fn create_replacement_word(db: &mut Database, input: CreateReplacementWordInput) -> (r: Result<ReplacementWord, DbError>)
    requires
        old(db).wf(),
    ensures
        final(db).wf(),
        match old(db).replacement_words.spec_next_id() {
            None => {
                &&& r == Err::<ReplacementWord, DbError>(DbError::StorageFull)
                &&& *final(db) == *old(db)
            },
            Some(id) => {
                &&& r == Ok::<ReplacementWord, DbError>(
                    (ReplacementWord {
                        id,
                        original: input.original,
                        correct: input.correct,
                        category: input.category,
                        created_at: final(db).clock,
                    }),
                )
                &&& final(db).replacement_words.rows@ == old(db).replacement_words.rows@.push(
                    r->Ok_0,
                )
                &&& clock_advanced(old(db).clock, final(db).clock)
                &&& final(db).same_except(old(db), set![Entity::ReplacementWord])
            },
        },
{
    let id = match db.replacement_words.next_id() {
        Some(id) => id,
        None => return Err(DbError::StorageFull),
    };
    let ghost before = *db;
    let stamp = db.tick();
    let row = ReplacementWord {
        id,
        original: input.original,
        correct: input.correct,
        category: input.category,
        created_at: stamp,
    };
    let out = row.duplicate();
    proof {
        lemma_wf_push(
            before.replacement_words.rows@,
            before.replacement_words.last_id,
            before.clock,
            row,
            stamp,
        );
        lemma_tables_later(before, *db);
    }
    db.replacement_words.append(row);
    Ok(out)
}

/// Deletes replacement word `id`; deleting one that does not exist changes nothing.
pub fn delete_replacement_word(db: &mut Database, id: i32)
    requires
        old(db).wf(),
    ensures
        final(db).wf(),
        final(db).replacement_words.rows@ == without_id(old(db).replacement_words.rows@, id),
        final(db).replacement_words.last_id == old(db).replacement_words.last_id,
        !has_id(old(db).replacement_words.rows@, id) ==> *final(db) == *old(db),
        final(db).clock == old(db).clock,
        final(db).same_except(old(db), set![Entity::ReplacementWord]),
{
    let ghost before = *db;
    db.replacement_words.remove(id);
    proof {
        lemma_wf_filter(
            before.replacement_words.rows@,
            before.replacement_words.last_id,
            db.clock,
            id_differs(id),
        );
    }
}

} // verus!
