//! The legacy tables that the engine knows, as a closed set.

use vstd::prelude::*;

verus! {

/// A legacy table for which a translator exists.
#[derive(Clone, Copy, Debug, PartialEq, Eq, Hash, Structural)]
pub enum LegacyTable {
    Name,
    Store,
    Item,
    Orders,
    OrderLine,
}

/// The table that goes by `name` on the wire, if the engine knows one.
pub open spec fn table_named(name: Seq<char>) -> Option<LegacyTable> {
    if name == "name"@ {
        Some(LegacyTable::Name)
    } else if name == "store"@ {
        Some(LegacyTable::Store)
    } else if name == "item"@ {
        Some(LegacyTable::Item)
    } else if name == "orders"@ {
        Some(LegacyTable::Orders)
    } else if name == "order_line"@ {
        Some(LegacyTable::OrderLine)
    } else {
        None
    }
}

impl LegacyTable {
    /// The name of the table on the wire.
    pub open spec fn legacy_name(self) -> Seq<char> {
        match self {
            LegacyTable::Name => "name"@,
            LegacyTable::Store => "store"@,
            LegacyTable::Item => "item"@,
            LegacyTable::Orders => "orders"@,
            LegacyTable::OrderLine => "order_line"@,
        }
    }

    /// The name of the table on the wire.
    pub fn name(self) -> (text: &'static str)
        ensures
            text@ == self.legacy_name(),
    {
        match self {
            LegacyTable::Name => "name",
            LegacyTable::Store => "store",
            LegacyTable::Item => "item",
            LegacyTable::Orders => "orders",
            LegacyTable::OrderLine => "order_line",
        }
    }

    /// Looks a table up by its name on the wire. An unknown name gives
    /// `None`; it is no error.
    pub fn from_name(name: &str) -> (table: Option<LegacyTable>)
        ensures
            table == table_named(name@),
    {
        let text: String = name.to_owned();
        if text == "name".to_owned() {
            Some(LegacyTable::Name)
        } else if text == "store".to_owned() {
            Some(LegacyTable::Store)
        } else if text == "item".to_owned() {
            Some(LegacyTable::Item)
        } else if text == "orders".to_owned() {
            Some(LegacyTable::Orders)
        } else if text == "order_line".to_owned() {
            Some(LegacyTable::OrderLine)
        } else {
            None
        }
    }

    /// Every known table, in declaration order.
    pub fn all() -> (tables: Vec<LegacyTable>)
        ensures
            tables@ == seq![
                LegacyTable::Name,
                LegacyTable::Store,
                LegacyTable::Item,
                LegacyTable::Orders,
                LegacyTable::OrderLine,
            ],
            forall|t: LegacyTable| tables@.contains(t),
    {
        let tables = vec![
            LegacyTable::Name,
            LegacyTable::Store,
            LegacyTable::Item,
            LegacyTable::Orders,
            LegacyTable::OrderLine,
        ];
        assert forall|t: LegacyTable| tables@.contains(t) by {
            match t {
                LegacyTable::Name => assert(tables@[0] == t),
                LegacyTable::Store => assert(tables@[1] == t),
                LegacyTable::Item => assert(tables@[2] == t),
                LegacyTable::Orders => assert(tables@[3] == t),
                LegacyTable::OrderLine => assert(tables@[4] == t),
            }
        }
        tables
    }
}

/// Each table is found again under its own name: no two tables share one.
pub proof fn law_table_names_distinct(table: LegacyTable)
    ensures
        table_named(table.legacy_name()) == Some(table),
{
    reveal_strlit("name");
    reveal_strlit("store");
    reveal_strlit("item");
    reveal_strlit("orders");
    reveal_strlit("order_line");
    assert("name"@.len() == 4 && "item"@.len() == 4 && "store"@.len() == 5);
    assert("orders"@.len() == 6 && "order_line"@.len() == 10);
    assert("name"@[0] == 'n' && "item"@[0] == 'i');
}

} // verus!
