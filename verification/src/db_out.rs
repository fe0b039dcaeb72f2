//! Database changes for pools, kept in the database sink crate's own
//! `DatabaseChanges` collection.
use crate::hexstr::hex_lower;
use crate::pools::Pool;
use substreams::Hex;
use substreams_database_change::pb::database::table_change::Operation;
use substreams_database_change::pb::database::DatabaseChanges;
use vstd::prelude::*;

verus! {

#[verifier::external_type_specification]
#[verifier::external_body]
pub struct ExDatabaseChanges(DatabaseChanges);

/// One changed field: name, old value, new value.
pub type FieldView = (Seq<char>, Seq<char>, Seq<char>);

/// One table change: table, primary key, ordinal, operation code (1 create,
/// 2 update, 3 delete) and changed fields.
pub type TableChangeView = (Seq<char>, Seq<char>, u64, i32, Seq<FieldView>);

/// The table changes a `DatabaseChanges` holds, in order.
pub uninterp spec fn database_changes_contents(changes: DatabaseChanges) -> Seq<TableChangeView>;

/// The operation of a table change.
#[derive(Clone, Copy, PartialEq, Eq, Debug)]
pub enum TableOperation {
    Create,
    Update,
}

/// The protocol code of an operation.
pub open spec fn operation_code(op: TableOperation) -> i32 {
    match op {
        TableOperation::Create => 1,
        TableOperation::Update => 2,
    }
}

/// `DatabaseChanges::push_change`: the source appends a table change with
/// the given table, single primary key, ordinal and operation, and no fields.
#[verifier::external_body]
fn push_table_change(
    changes: &mut DatabaseChanges,
    table: &str,
    key: &str,
    ordinal: u64,
    operation: TableOperation,
)
    ensures
        database_changes_contents(*final(changes)) == database_changes_contents(*old(changes)).push(
            (table@, key@, ordinal, operation_code(operation), Seq::<FieldView>::empty()),
        ),
{
    let op = match operation {
        TableOperation::Create => Operation::Create,
        TableOperation::Update => Operation::Update,
    };
    changes.push_change(table, key, ordinal, op);
}

/// The old value of a field: the lowercase hexadecimal text of the old
/// bytes, or empty when there are none.
pub open spec fn old_field_value(before_value: Option<&[u8]>) -> Seq<char> {
    match before_value {
        Some(b) => hex_lower(b@),
        None => Seq::empty(),
    }
}

/// `TableChange::change` on the last table change, with `Hex` values: the
/// source appends the field `name` whose new value is the lowercase
/// hexadecimal text of `new` and whose old value is that of `before_value`,
/// or empty when it is `None`.
#[verifier::external_body]
fn add_hex_field(changes: &mut DatabaseChanges, name: &str, before_value: Option<&[u8]>, new: &[u8])
    requires
        database_changes_contents(*old(changes)).len() > 0,
    ensures
        ({
            let before = database_changes_contents(*old(changes));
            let last = before.last();
            database_changes_contents(*final(changes)) == before.update(
                before.len() - 1,
                (
                    last.0,
                    last.1,
                    last.2,
                    last.3,
                    last.4.push((name@, old_field_value(before_value), hex_lower(new@))),
                ),
            )
        }),
{
    changes.table_changes.last_mut().unwrap().change(name, (before_value.map(Hex), Hex(new)));
}

/// Records the creation of a pool: a `pool` table change with key `key`,
/// whose `pool_address` field goes from nothing to the pool's address in
/// hexadecimal.
pub fn push_create(changes: &mut DatabaseChanges, key: &str, ordinal: u64, value: Pool)
    ensures
        database_changes_contents(*final(changes)) == database_changes_contents(*old(changes)).push(
            (
                "pool"@,
                key@,
                ordinal,
                1i32,
                seq![("pool_address"@, Seq::<char>::empty(), hex_lower(value.pool_address@))],
            ),
        ),
{
    push_table_change(changes, "pool", key, ordinal, TableOperation::Create);
    add_hex_field(changes, "pool_address", None, value.pool_address.as_slice());
    assert(database_changes_contents(*changes) =~= database_changes_contents(*old(changes)).push(
        (
            "pool"@,
            key@,
            ordinal,
            1i32,
            seq![("pool_address"@, Seq::<char>::empty(), hex_lower(value.pool_address@))],
        ),
    ));
}

/// Records the update of a pool: a `pool` table change with key `key`,
/// whose `pool_address` field goes from the old to the new address, both in
/// hexadecimal.
pub fn push_update(
    changes: &mut DatabaseChanges,
    key: &str,
    ordinal: u64,
    old_value: Pool,
    new_value: Pool,
)
    ensures
        database_changes_contents(*final(changes)) == database_changes_contents(*old(changes)).push(
            (
                "pool"@,
                key@,
                ordinal,
                2i32,
                seq![
                    (
                        "pool_address"@,
                        hex_lower(old_value.pool_address@),
                        hex_lower(new_value.pool_address@),
                    ),
                ],
            ),
        ),
{
    push_table_change(changes, "pool", key, ordinal, TableOperation::Update);
    add_hex_field(
        changes,
        "pool_address",
        Some(old_value.pool_address.as_slice()),
        new_value.pool_address.as_slice(),
    );
    assert(database_changes_contents(*changes) =~= database_changes_contents(*old(changes)).push(
        (
            "pool"@,
            key@,
            ordinal,
            2i32,
            seq![
                (
                    "pool_address"@,
                    hex_lower(old_value.pool_address@),
                    hex_lower(new_value.pool_address@),
                ),
            ],
        ),
    ));
}

} // verus!
