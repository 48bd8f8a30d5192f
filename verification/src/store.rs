//! The statements by which two-factor records are read and changed, and what they do to them.
use crate::models::twofactor::{bool_to_int, TwoFactor, TwoFactorType};
use crate::models;
use vstd::prelude::*;

verus! {

broadcast use vstd::string::group_string_axioms;

/// A value bound to a parameter of a statement.
#[derive(Debug)]
pub enum Param {
    Text(String),
    Int(i64),
}

/// A question to the database.
#[derive(Debug)]
pub enum Query {
    /// The account with this id.
    User { id: String },
    /// A two-factor record of a user, of one type.
    TwoFactorOfType { user_id: String, atype: i32 },
    /// The two-factor records of a user, without the pending ones.
    TwoFactors { user_id: String },
    /// The two-factor records of a user, without the pending ones and the remembered devices.
    Providers { user_id: String },
    /// The recovery code of an account.
    RecoveryCode { user_id: String },
}

impl Query {
    /// The SQL of a question.
    pub open spec fn statement(self) -> Seq<char> {
        match self {
            Query::User { .. } => "SELECT * FROM users WHERE id = ?1"@,
            Query::TwoFactorOfType { .. } => "SELECT * FROM twofactor WHERE user_uuid = ?1 AND atype = ?2"@,
            Query::TwoFactors { .. } => "SELECT * FROM twofactor WHERE user_uuid = ?1 AND atype < 1000"@,
            Query::Providers { .. } => "SELECT * FROM twofactor WHERE user_uuid = ?1 AND atype < 1000 AND atype != ?2"@,
            Query::RecoveryCode { .. } => "SELECT totp_recover FROM users WHERE id = ?1"@,
        }
    }

    /// The values bound to the parameters of a question, from `?1` on.
    pub open spec fn bound(self) -> Seq<Param> {
        match self {
            Query::User { id } => seq![Param::Text(id)],
            Query::TwoFactorOfType { user_id, atype } => seq![Param::Text(user_id)].push(
                Param::Int(atype as i64),
            ),
            Query::TwoFactors { user_id } => seq![Param::Text(user_id)],
            Query::Providers { user_id } => seq![Param::Text(user_id)].push(
                Param::Int(TwoFactorType::Remember.code() as i64),
            ),
            Query::RecoveryCode { user_id } => seq![Param::Text(user_id)],
        }
    }

    /// The SQL of a question.
    pub fn sql(&self) -> (r: &'static str)
        ensures
            r@ == self.statement(),
    {
        match self {
            Query::User { .. } => "SELECT * FROM users WHERE id = ?1",
            Query::TwoFactorOfType { .. } => "SELECT * FROM twofactor WHERE user_uuid = ?1 AND atype = ?2",
            Query::TwoFactors { .. } => "SELECT * FROM twofactor WHERE user_uuid = ?1 AND atype < 1000",
            Query::Providers { .. } => "SELECT * FROM twofactor WHERE user_uuid = ?1 AND atype < 1000 AND atype != ?2",
            Query::RecoveryCode { .. } => "SELECT totp_recover FROM users WHERE id = ?1",
        }
    }

    /// The values bound to the parameters of a question, from `?1` on.
    pub fn params(&self) -> (r: Vec<Param>)
        ensures
            r@ == self.bound(),
    {
        let mut out: Vec<Param> = Vec::new();
        match self {
            Query::User { id } => {
                out.push(Param::Text(id.clone()));
            },
            Query::TwoFactorOfType { user_id, atype } => {
                out.push(Param::Text(user_id.clone()));
                out.push(Param::Int(*atype as i64));
            },
            Query::TwoFactors { user_id } => {
                out.push(Param::Text(user_id.clone()));
            },
            Query::Providers { user_id } => {
                out.push(Param::Text(user_id.clone()));
                out.push(Param::Int(TwoFactorType::Remember.to_i32() as i64));
            },
            Query::RecoveryCode { user_id } => {
                out.push(Param::Text(user_id.clone()));
            },
        }
        out
    }
}

/// A change to the database.
#[derive(Debug)]
pub enum Write {
    /// Drops the records of a user that have one of two types.
    DeleteTypes { user_id: String, first: i32, second: i32 },
    /// Drops the records of a user that have a type.
    DeleteType { user_id: String, atype: i32 },
    /// Drops one record.
    DeleteRow { uuid: String },
    /// Adds a record.
    Insert { row: TwoFactor },
    /// Gives a record another type and other data, and marks it unused.
    SetTypeAndData { uuid: String, atype: i32, data: String },
    /// Gives a record other data.
    SetData { uuid: String, data: String },
    /// Gives an account a recovery code.
    SetRecovery { user_id: String, code: String },
    /// Takes the recovery code of an account away.
    ClearRecovery { user_id: String },
}

impl Write {
    /// The SQL of a change.
    pub open spec fn statement(self) -> Seq<char> {
        match self {
            Write::DeleteTypes { .. } => "DELETE FROM twofactor WHERE user_uuid = ?1 AND atype IN (?2, ?3)"@,
            Write::DeleteType { .. } => "DELETE FROM twofactor WHERE user_uuid = ?1 AND atype = ?2"@,
            Write::DeleteRow { .. } => "DELETE FROM twofactor WHERE uuid = ?1"@,
            Write::Insert { .. } => "INSERT INTO twofactor (uuid, user_uuid, atype, enabled, data, last_used) VALUES (?1, ?2, ?3, ?4, ?5, ?6)"@,
            Write::SetTypeAndData { .. } => "UPDATE twofactor SET atype = ?1, data = ?2, last_used = 0 WHERE uuid = ?3"@,
            Write::SetData { .. } => "UPDATE twofactor SET data = ?1 WHERE uuid = ?2"@,
            Write::SetRecovery { .. } => "UPDATE users SET totp_recover = ?1 WHERE id = ?2"@,
            Write::ClearRecovery { .. } => "UPDATE users SET totp_recover = NULL WHERE id = ?1"@,
        }
    }

    /// The values bound to the parameters of a change, from `?1` on.
    pub open spec fn bound(self) -> Seq<Param> {
        match self {
            Write::DeleteTypes { user_id, first, second } => seq![Param::Text(user_id)].push(
                Param::Int(first as i64),
            ).push(Param::Int(second as i64)),
            Write::DeleteType { user_id, atype } => seq![Param::Text(user_id)].push(
                Param::Int(atype as i64),
            ),
            Write::DeleteRow { uuid } => seq![Param::Text(uuid)],
            Write::Insert { row } => seq![Param::Text(row.uuid)].push(
                Param::Text(row.user_uuid),
            ).push(Param::Int(row.atype as i64)).push(
                Param::Int(models::twofactor::int_of_bool(row.enabled)),
            ).push(Param::Text(row.data)).push(Param::Int(row.last_used)),
            Write::SetTypeAndData { uuid, atype, data } => seq![Param::Int(atype as i64)].push(
                Param::Text(data),
            ).push(Param::Text(uuid)),
            Write::SetData { uuid, data } => seq![Param::Text(data)].push(Param::Text(uuid)),
            Write::SetRecovery { user_id, code } => seq![Param::Text(code)].push(
                Param::Text(user_id),
            ),
            Write::ClearRecovery { user_id } => seq![Param::Text(user_id)],
        }
    }

    /// The SQL of a change.
    pub fn sql(&self) -> (r: &'static str)
        ensures
            r@ == self.statement(),
    {
        match self {
            Write::DeleteTypes { .. } => "DELETE FROM twofactor WHERE user_uuid = ?1 AND atype IN (?2, ?3)",
            Write::DeleteType { .. } => "DELETE FROM twofactor WHERE user_uuid = ?1 AND atype = ?2",
            Write::DeleteRow { .. } => "DELETE FROM twofactor WHERE uuid = ?1",
            Write::Insert { .. } => "INSERT INTO twofactor (uuid, user_uuid, atype, enabled, data, last_used) VALUES (?1, ?2, ?3, ?4, ?5, ?6)",
            Write::SetTypeAndData { .. } => "UPDATE twofactor SET atype = ?1, data = ?2, last_used = 0 WHERE uuid = ?3",
            Write::SetData { .. } => "UPDATE twofactor SET data = ?1 WHERE uuid = ?2",
            Write::SetRecovery { .. } => "UPDATE users SET totp_recover = ?1 WHERE id = ?2",
            Write::ClearRecovery { .. } => "UPDATE users SET totp_recover = NULL WHERE id = ?1",
        }
    }

    /// The values bound to the parameters of a change, from `?1` on.
    pub fn params(&self) -> (r: Vec<Param>)
        ensures
            r@ == self.bound(),
    {
        let mut out: Vec<Param> = Vec::new();
        match self {
            Write::DeleteTypes { user_id, first, second } => {
                out.push(Param::Text(user_id.clone()));
                out.push(Param::Int(*first as i64));
                out.push(Param::Int(*second as i64));
            },
            Write::DeleteType { user_id, atype } => {
                out.push(Param::Text(user_id.clone()));
                out.push(Param::Int(*atype as i64));
            },
            Write::DeleteRow { uuid } => {
                out.push(Param::Text(uuid.clone()));
            },
            Write::Insert { row } => {
                out.push(Param::Text(row.uuid.clone()));
                out.push(Param::Text(row.user_uuid.clone()));
                out.push(Param::Int(row.atype as i64));
                out.push(Param::Int(bool_to_int(row.enabled)));
                out.push(Param::Text(row.data.clone()));
                out.push(Param::Int(row.last_used));
            },
            Write::SetTypeAndData { uuid, atype, data } => {
                out.push(Param::Int(*atype as i64));
                out.push(Param::Text(data.clone()));
                out.push(Param::Text(uuid.clone()));
            },
            Write::SetData { uuid, data } => {
                out.push(Param::Text(data.clone()));
                out.push(Param::Text(uuid.clone()));
            },
            Write::SetRecovery { user_id, code } => {
                out.push(Param::Text(code.clone()));
                out.push(Param::Text(user_id.clone()));
            },
            Write::ClearRecovery { user_id } => {
                out.push(Param::Text(user_id.clone()));
            },
        }
        out
    }
}

// ---------------------------------------------------------------------------------------------
// What questions find
// ---------------------------------------------------------------------------------------------

/// The first number of a type that lists leave out.
pub const FIRST_UNLISTED: i32 = 1000;

/// Whether a question finds a two-factor record.
pub open spec fn finds(query: Query, row: TwoFactor) -> bool {
    match query {
        Query::TwoFactorOfType { user_id, atype } => row.user_uuid@ == user_id@ && row.atype
            == atype,
        Query::TwoFactors { user_id } => row.user_uuid@ == user_id@ && row.atype < FIRST_UNLISTED,
        Query::Providers { user_id } => row.user_uuid@ == user_id@ && row.atype < FIRST_UNLISTED
            && row.atype != TwoFactorType::Remember.code(),
        Query::User { .. } | Query::RecoveryCode { .. } => false,
    }
}

/// The two-factor records that a question finds, in the order in which they are held.
pub open spec fn found(query: Query, rows: Seq<TwoFactor>) -> Seq<TwoFactor>
    decreases rows.len(),
{
    if rows.len() == 0 {
        rows
    } else if finds(query, rows.last()) {
        found(query, rows.drop_last()).push(rows.last())
    } else {
        found(query, rows.drop_last())
    }
}

/// A question finds exactly the records that it is about.
pub proof fn lemma_found(query: Query, rows: Seq<TwoFactor>, row: TwoFactor)
    ensures
        found(query, rows).contains(row) <==> rows.contains(row) && finds(query, row),
    decreases rows.len(),
{
    if rows.len() > 0 {
        let head = rows.drop_last();
        let last = rows.last();
        lemma_found(query, head, row);
        assert(rows =~= head.push(last));
        lemma_push_contains(head, last, row);
        lemma_push_contains(found(query, head), last, row);
    }
}

/// What one more value adds to a sequence.
pub proof fn lemma_push_contains<T>(s: Seq<T>, last: T, x: T)
    ensures
        s.push(last).contains(x) <==> s.contains(x) || x == last,
{
    if s.contains(x) {
        let i = choose|i: int| 0 <= i < s.len() && s[i] == x;
        assert(s.push(last)[i] == x);
    }
    assert(s.push(last)[s.len() as int] == last);
    if s.push(last).contains(x) && x != last {
        let i = choose|i: int| 0 <= i < s.push(last).len() && s.push(last)[i] == x;
        assert(s[i] == x);
    }
}

/// The list of a user's records holds exactly those with a type below a thousand, and so none of a
/// pending ceremony; the list of their providers leaves out remembered devices as well.
pub proof fn law_lists_leave_out_pending_records(
    user_id: String,
    rows: Seq<TwoFactor>,
    row: TwoFactor,
    pending: TwoFactorType,
)
    requires
        pending == TwoFactorType::EmailVerificationChallenge || pending
            == TwoFactorType::WebauthnRegisterChallenge || pending
            == TwoFactorType::WebauthnLoginChallenge,
    ensures
        found(Query::TwoFactors { user_id }, rows).contains(row) <==> rows.contains(row)
            && row.user_uuid@ == user_id@ && row.atype < 1000,
        found(Query::Providers { user_id }, rows).contains(row) <==> rows.contains(row)
            && row.user_uuid@ == user_id@ && row.atype < 1000 && row.atype
            != TwoFactorType::Remember.code(),
        row.atype == pending.code() ==> !found(Query::TwoFactors { user_id }, rows).contains(row)
            && !found(Query::Providers { user_id }, rows).contains(row),
{
    lemma_found(Query::TwoFactors { user_id }, rows, row);
    lemma_found(Query::Providers { user_id }, rows, row);
}

/// A question for one type finds exactly the records that the user has of it.
pub proof fn law_one_type_is_found(user_id: String, atype: i32, rows: Seq<TwoFactor>)
    ensures
        found(Query::TwoFactorOfType { user_id, atype }, rows) == of_type(rows, user_id@, atype),
    decreases rows.len(),
{
    if rows.len() > 0 {
        law_one_type_is_found(user_id, atype, rows.drop_last());
    }
}

// ---------------------------------------------------------------------------------------------
// What changes do
// ---------------------------------------------------------------------------------------------

/// Whether a change drops a record.
pub open spec fn drops(write: Write, row: TwoFactor) -> bool {
    match write {
        Write::DeleteTypes { user_id, first, second } => row.user_uuid@ == user_id@ && (row.atype
            == first || row.atype == second),
        Write::DeleteType { user_id, atype } => row.user_uuid@ == user_id@ && row.atype == atype,
        Write::DeleteRow { uuid } => row.uuid@ == uuid@,
        _ => false,
    }
}

/// What a change makes of a record that it does not drop.
pub open spec fn changes(write: Write, row: TwoFactor) -> TwoFactor {
    match write {
        Write::SetTypeAndData { uuid, atype, data } => if row.uuid@ == uuid@ {
            TwoFactor { atype, data, last_used: 0, ..row }
        } else {
            row
        },
        Write::SetData { uuid, data } => if row.uuid@ == uuid@ {
            TwoFactor { data, ..row }
        } else {
            row
        },
        _ => row,
    }
}

/// The records that were there before a change, after it.
pub open spec fn survivors(write: Write, rows: Seq<TwoFactor>) -> Seq<TwoFactor>
    decreases rows.len(),
{
    if rows.len() == 0 {
        rows
    } else if drops(write, rows.last()) {
        survivors(write, rows.drop_last())
    } else {
        survivors(write, rows.drop_last()).push(changes(write, rows.last()))
    }
}

/// The records after a change.
pub open spec fn after(write: Write, rows: Seq<TwoFactor>) -> Seq<TwoFactor> {
    match write {
        Write::Insert { row } => rows.push(row),
        _ => survivors(write, rows),
    }
}

/// The records after several changes, one after the other.
pub open spec fn after_all(writes: Seq<Write>, rows: Seq<TwoFactor>) -> Seq<TwoFactor>
    decreases writes.len(),
{
    if writes.len() == 0 {
        rows
    } else {
        after(writes.last(), after_all(writes.drop_last(), rows))
    }
}

/// The records of a user that have a type.
pub open spec fn of_type(rows: Seq<TwoFactor>, user_id: Seq<char>, atype: i32) -> Seq<TwoFactor>
    decreases rows.len(),
{
    if rows.len() == 0 {
        rows
    } else if rows.last().user_uuid@ == user_id && rows.last().atype == atype {
        of_type(rows.drop_last(), user_id, atype).push(rows.last())
    } else {
        of_type(rows.drop_last(), user_id, atype)
    }
}

/// Dropping by type leaves none of the type.
proof fn lemma_deleted_type_is_gone(write: Write, rows: Seq<TwoFactor>, user_id: Seq<char>, t: i32)
    requires
        write matches Write::DeleteType { user_id: u, atype } && u@ == user_id && atype == t || (
        write matches Write::DeleteTypes { user_id: u, first, second } && u@ == user_id && (first
            == t || second == t)),
    ensures
        of_type(survivors(write, rows), user_id, t) == Seq::<TwoFactor>::empty(),
    decreases rows.len(),
{
    if rows.len() > 0 {
        lemma_deleted_type_is_gone(write, rows.drop_last(), user_id, t);
        let rest = survivors(write, rows.drop_last());
        if !drops(write, rows.last()) {
            assert(rest.push(rows.last()).drop_last() =~= rest);
        }
    }
    assert(of_type(survivors(write, rows), user_id, t) =~= Seq::<TwoFactor>::empty());
}

/// Dropping by type leaves the records of other users, and those of other types, as they were.
proof fn lemma_other_types_stay(write: Write, rows: Seq<TwoFactor>, user_id: Seq<char>, t: i32)
    requires
        write matches Write::DeleteType { user_id: u, atype } && (u@ != user_id || atype != t) || (
        write matches Write::DeleteTypes { user_id: u, first, second } && (u@ != user_id || (first
            != t && second != t))),
    ensures
        of_type(survivors(write, rows), user_id, t) == of_type(rows, user_id, t),
    decreases rows.len(),
{
    if rows.len() > 0 {
        lemma_other_types_stay(write, rows.drop_last(), user_id, t);
        let rest = survivors(write, rows.drop_last());
        if !drops(write, rows.last()) {
            assert(rest.push(rows.last()).drop_last() =~= rest);
        }
    }
}

/// The two changes that put a record in the place of those a user has of its type.
pub open spec fn upsert(row: TwoFactor) -> Seq<Write> {
    seq![Write::DeleteType { user_id: row.user_uuid, atype: row.atype }].push(
        Write::Insert { row },
    )
}

/// What two changes do, in order.
pub proof fn lemma_two_changes(first: Write, second: Write, rows: Seq<TwoFactor>)
    ensures
        after_all(seq![first].push(second), rows) == after(second, after(first, rows)),
{
    let both = seq![first].push(second);
    assert(both.drop_last() =~= seq![first]);
    assert(seq![first].drop_last() =~= Seq::<Write>::empty());
    reveal_with_fuel(after_all, 3);
}

/// After an upsert the record is the only one its user has of its type, and the records of other
/// users and of other types are as they were.
pub proof fn law_upsert_leaves_one_record(
    row: TwoFactor,
    rows: Seq<TwoFactor>,
    other_user: Seq<char>,
    other_type: i32,
)
    ensures
        of_type(after_all(upsert(row), rows), row.user_uuid@, row.atype) == seq![row],
        other_user != row.user_uuid@ || other_type != row.atype ==> of_type(
            after_all(upsert(row), rows),
            other_user,
            other_type,
        ) == of_type(rows, other_user, other_type),
{
    let delete = Write::DeleteType { user_id: row.user_uuid, atype: row.atype };
    let left = survivors(delete, rows);
    lemma_two_changes(delete, Write::Insert { row }, rows);
    lemma_deleted_type_is_gone(delete, rows, row.user_uuid@, row.atype);
    assert(left.push(row).drop_last() =~= left);
    assert(of_type(left.push(row), row.user_uuid@, row.atype) =~= seq![row]);
    if other_user != row.user_uuid@ || other_type != row.atype {
        lemma_other_types_stay(delete, rows, other_user, other_type);
    }
}

/// Putting a record in the place of those a user has of two types leaves it as the only one of its
/// own type and none of the other type. The records of other users and of other types stay.
pub proof fn law_replacing_two_types_leaves_one_record(
    row: TwoFactor,
    other: i32,
    rows: Seq<TwoFactor>,
    user: Seq<char>,
    t: i32,
)
    requires
        other != row.atype,
    ensures
        ({
            let writes = seq![
                Write::DeleteTypes { user_id: row.user_uuid, first: row.atype, second: other },
            ].push(Write::Insert { row });
            &&& of_type(after_all(writes, rows), row.user_uuid@, row.atype) == seq![row]
            &&& of_type(after_all(writes, rows), row.user_uuid@, other) == Seq::<TwoFactor>::empty()
            &&& user != row.user_uuid@ || (t != row.atype && t != other) ==> of_type(
                after_all(writes, rows),
                user,
                t,
            ) == of_type(rows, user, t)
        }),
{
    let delete = Write::DeleteTypes { user_id: row.user_uuid, first: row.atype, second: other };
    let left = survivors(delete, rows);
    lemma_two_changes(delete, Write::Insert { row }, rows);
    lemma_deleted_type_is_gone(delete, rows, row.user_uuid@, row.atype);
    lemma_deleted_type_is_gone(delete, rows, row.user_uuid@, other);
    assert(left.push(row).drop_last() =~= left);
    assert(of_type(left.push(row), row.user_uuid@, row.atype) =~= seq![row]);
    if user != row.user_uuid@ || (t != row.atype && t != other) {
        lemma_other_types_stay(delete, rows, user, t);
    }
}

/// Dropping a type leaves a user none of it, and leaves every other record.
pub proof fn law_delete_type_drops_only_that_type(
    user_id: String,
    atype: i32,
    rows: Seq<TwoFactor>,
    user: Seq<char>,
    t: i32,
)
    ensures
        of_type(after(Write::DeleteType { user_id, atype }, rows), user_id@, atype)
            == Seq::<TwoFactor>::empty(),
        user != user_id@ || t != atype ==> of_type(
            after(Write::DeleteType { user_id, atype }, rows),
            user,
            t,
        ) == of_type(rows, user, t),
{
    let delete = Write::DeleteType { user_id, atype };
    lemma_deleted_type_is_gone(delete, rows, user_id@, atype);
    if user != user_id@ || t != atype {
        lemma_other_types_stay(delete, rows, user, t);
    }
}

/// Changing a record in place keeps the number of records, and every record under another UUID.
pub proof fn law_update_touches_one_record(write: Write, rows: Seq<TwoFactor>, i: int)
    requires
        write is SetData || write is SetTypeAndData,
        0 <= i < rows.len(),
    ensures
        after(write, rows).len() == rows.len(),
        after(write, rows)[i] == changes(write, rows[i]),
        after(write, rows)[i].uuid == rows[i].uuid,
        after(write, rows)[i].user_uuid == rows[i].user_uuid,
        after(write, rows)[i].enabled == rows[i].enabled,
        (write matches Write::SetData { uuid, .. } ==> rows[i].uuid@ != uuid@) && (
        write matches Write::SetTypeAndData { uuid, .. } ==> rows[i].uuid@ != uuid@) ==> after(
            write,
            rows,
        )[i] == rows[i],
    decreases rows.len(),
{
    lemma_update_len(write, rows);
    if i < rows.len() - 1 {
        law_update_touches_one_record(write, rows.drop_last(), i);
        lemma_update_len(write, rows.drop_last());
    } else {
        lemma_update_len(write, rows.drop_last());
    }
}

/// Changing a record in place keeps the number of records.
proof fn lemma_update_len(write: Write, rows: Seq<TwoFactor>)
    requires
        write is SetData || write is SetTypeAndData,
    ensures
        survivors(write, rows).len() == rows.len(),
    decreases rows.len(),
{
    if rows.len() > 0 {
        lemma_update_len(write, rows.drop_last());
    }
}

/// The recovery code of an account after a change.
pub open spec fn recovery_after(
    write: Write,
    account: Seq<char>,
    code: Option<Seq<char>>,
) -> Option<Seq<char>> {
    match write {
        Write::SetRecovery { user_id, code: new } => if user_id@ == account {
            Some(new@)
        } else {
            code
        },
        Write::ClearRecovery { user_id } => if user_id@ == account {
            None
        } else {
            code
        },
        _ => code,
    }
}

/// A change to a recovery code is one to the account that it names, and no change to records is one
/// to a recovery code.
pub proof fn law_recovery_changes_one_account(
    write: Write,
    account: Seq<char>,
    code: Option<Seq<char>>,
)
    ensures
        write matches Write::SetRecovery { user_id, code: new } ==> recovery_after(
            write,
            user_id@,
            code,
        ) == Some(new@),
        write matches Write::ClearRecovery { user_id } ==> recovery_after(
            write,
            user_id@,
            code,
        ) is None,
        recovery_after(write, account, code) != code ==> (write matches Write::SetRecovery {
            user_id,
            ..
        } && user_id@ == account) || (write matches Write::ClearRecovery { user_id } && user_id@
            == account),
{
}

/// Two deletions that name the same user and the same types drop the same records.
pub proof fn lemma_same_deletion(a: Write, b: Write, rows: Seq<TwoFactor>)
    requires
        a matches Write::DeleteTypes { user_id: u, first: f, second: s } && b matches Write::DeleteTypes {
            user_id: v,
            first: g,
            second: t,
        } && u@ == v@ && f == g && s == t,
    ensures
        after(a, rows) == after(b, rows),
    decreases rows.len(),
{
    if rows.len() > 0 {
        lemma_same_deletion(a, b, rows.drop_last());
    }
}

/// What a question is about is bound where its statement asks for it: the account first, and the type
/// that is looked for, or left out, second.
pub proof fn law_questions_name_their_account(id: String, atype: i32)
    ensures
        (Query::User { id }).bound() == seq![Param::Text(id)],
        (Query::TwoFactors { user_id: id }).bound() == seq![Param::Text(id)],
        (Query::RecoveryCode { user_id: id }).bound() == seq![Param::Text(id)],
        (Query::TwoFactorOfType { user_id: id, atype }).bound() == seq![
            Param::Text(id),
            Param::Int(atype as i64),
        ],
        (Query::Providers { user_id: id }).bound() == seq![Param::Text(id), Param::Int(5)],
{
}

/// What a change is about is bound where its statement asks for it: what is dropped by account and type,
/// what is written before the record or account that it is written to, and every column of a new record.
pub proof fn law_changes_are_bound_in_place(
    id: String,
    data: String,
    first: i32,
    second: i32,
    row: TwoFactor,
)
    ensures
        (Write::DeleteTypes { user_id: id, first, second }).bound() == seq![
            Param::Text(id),
            Param::Int(first as i64),
            Param::Int(second as i64),
        ],
        (Write::DeleteType { user_id: id, atype: first }).bound() == seq![
            Param::Text(id),
            Param::Int(first as i64),
        ],
        (Write::DeleteRow { uuid: id }).bound() == seq![Param::Text(id)],
        (Write::SetTypeAndData { uuid: id, atype: first, data }).bound() == seq![
            Param::Int(first as i64),
            Param::Text(data),
            Param::Text(id),
        ],
        (Write::SetData { uuid: id, data }).bound() == seq![Param::Text(data), Param::Text(id)],
        (Write::SetRecovery { user_id: id, code: data }).bound() == seq![
            Param::Text(data),
            Param::Text(id),
        ],
        (Write::ClearRecovery { user_id: id }).bound() == seq![Param::Text(id)],
        (Write::Insert { row }).bound() == seq![
            Param::Text(row.uuid),
            Param::Text(row.user_uuid),
            Param::Int(row.atype as i64),
            Param::Int(if row.enabled { 1 } else { 0 }),
            Param::Text(row.data),
            Param::Int(row.last_used),
        ],
{
}

} // verus!
