use vstd::prelude::*;

verus! {

/// The four logical tables of the durable store.
#[derive(Clone, Copy, Debug, PartialEq, Eq, Structural)]
pub enum Table {
    Users,
    Bans,
    UserLogins,
    BannedIPs,
}

/// The name under which each logical table is persisted.
pub open spec fn table_name_spec(val: Table) -> Seq<char> {
    match val {
        Table::Users => "users"@,
        Table::Bans => "bans"@,
        Table::UserLogins => "user_logins"@,
        Table::BannedIPs => "ip_bans"@,
    }
}

/// Converts a `Table` to the corresponding persisted table name.
pub fn table_to_string(val: Table) -> (r: String)
    ensures
        r@ == table_name_spec(val),
{
    match val {
        Table::Users => String::from_str("users"),
        Table::Bans => String::from_str("bans"),
        Table::UserLogins => String::from_str("user_logins"),
        Table::BannedIPs => String::from_str("ip_bans"),
    }
}

} // verus!
