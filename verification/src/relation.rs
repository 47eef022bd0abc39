//! What an export reads from: a table, or the result of a query.

use crate::identifier::escape_identifier;
use crate::identifier::quoted;
use vstd::prelude::*;
use vstd::string::StringExecFns;

verus! {

/// The name of a table, with or without the schema that it lives in.
#[derive(Debug)]
pub struct Table {
    schema: Option<String>,
    table: String,
}

/// What a `Table` stands for: the text of its schema, if it names one, and
/// the text of its name.
pub struct TableView {
    pub schema: Option<Seq<char>>,
    pub table: Seq<char>,
}

impl TableView {
    /// The table as SQL: the quoted name, behind the quoted schema and a dot
    /// where there is a schema.
    pub open spec fn rendered(self) -> Seq<char> {
        match self.schema {
            Some(schema) => quoted(schema) + seq!['.'] + quoted(self.table),
            None => quoted(self.table),
        }
    }
}

impl View for Table {
    type V = TableView;

    closed spec fn view(&self) -> TableView {
        TableView {
            schema: match self.schema {
                Some(schema) => Some(schema@),
                None => None,
            },
            table: self.table@,
        }
    }
}

/// Whether a character keeps a text from being read as the name of a table:
/// the quote and the dot, which belong to the syntax of qualified names, and
/// the NUL character, which no identifier may hold.
pub open spec fn reserved(c: char) -> bool {
    c == '"' || c == '.' || c == '\0'
}

/// Whether a text can be read as the bare name of a table.
pub open spec fn plain(text: Seq<char>) -> bool {
    forall|i: int| 0 <= i < text.len() ==> !reserved(#[trigger] text[i])
}

impl Table {
    /// The table `table`, in `schema` if one is given.
    pub fn new(schema: Option<String>, table: String) -> (named: Table)
        ensures
            named@.schema == match schema {
                Some(text) => Some(text@),
                None => None,
            },
            named@.table == table@,
    {
        Table { schema, table }
    }

    /// The schema that the table lives in, if it names one.
    pub fn schema(&self) -> (schema: Option<String>)
        ensures
            self@.schema == match schema {
                Some(text) => Some(text@),
                None => None,
            },
    {
        match &self.schema {
            Some(schema) => Some(schema.clone()),
            None => None,
        }
    }

    /// The name of the table.
    pub fn table(&self) -> (table: String)
        ensures
            table@ == self@.table,
    {
        self.table.clone()
    }

    /// Reads a table's bare name. A text that holds a quote, a dot or the NUL
    /// character is refused.
    pub fn from_str(s: &str) -> (parsed: Result<Table, ()>)
        ensures
            parsed is Ok <==> plain(s@),
            parsed matches Ok(named) ==> named@.schema is None && named@.table == s@,
    {
        for c in it: s.chars()
            invariant
                it.seq() == s@,
                plain(s@.take(it.index() as int)),
        {
            if c == '"' || c == '.' || c == '\0' {
                proof {
                    assert(reserved(s@[it.index() as int]));
                }
                return Err(());
            }
            proof {
                let seen = s@.take(it.index() as int + 1);
                assert forall|i: int| 0 <= i < seen.len() implies !reserved(
                    #[trigger] seen[i],
                ) by {
                    if i < it.index() {
                        assert(seen[i] == s@.take(it.index() as int)[i]);
                    }
                }
            }
        }
        proof {
            assert(s@.take(s@.len() as int) =~= s@);
        }
        Ok(Table { schema: None, table: s.to_owned() })
    }

    /// Writes the table as SQL.
    pub fn to_string(&self) -> (text: String)
        ensures
            text@ == self@.rendered(),
    {
        let mut text = String::new();
        if let Some(schema) = &self.schema {
            let quoted_schema = escape_identifier(schema.as_str());
            text.append(quoted_schema.as_str());
            text.append(".");
            proof {
                reveal_strlit(".");
                assert("."@ =~= seq!['.']);
            }
        }
        let quoted_table = escape_identifier(self.table.as_str());
        text.append(quoted_table.as_str());
        proof {
            assert(text@ =~= self@.rendered());
        }
        text
    }
}

impl std::str::FromStr for Table {
    type Err = ();

    fn from_str(s: &str) -> (parsed: Result<Table, ()>)
        ensures
            parsed is Ok <==> plain(s@),
            parsed matches Ok(named) ==> named@.schema is None && named@.table == s@,
    {
        Table::from_str(s)
    }
}

/// The relation that an export reads.
#[derive(Debug)]
pub enum Source {
    /// All rows of a table.
    Table(Table),
    /// The rows that a query returns.
    Query(String),
}

/// What a `Source` stands for.
pub enum SourceView {
    Table(TableView),
    Query(Seq<char>),
}

impl SourceView {
    /// The relation as it stands in a `FROM` clause: the table's name, or
    /// the query in parentheses under the alias `_`.
    pub open spec fn rendered(self) -> Seq<char> {
        match self {
            SourceView::Table(table) => table.rendered(),
            SourceView::Query(query) => seq!['('] + query + seq![')', ' ', '_'],
        }
    }
}

impl View for Source {
    type V = SourceView;

    open spec fn view(&self) -> SourceView {
        match self {
            Source::Table(table) => SourceView::Table(table@),
            Source::Query(query) => SourceView::Query(query@),
        }
    }
}

impl Source {
    /// Writes the relation as it stands in a `FROM` clause.
    pub fn to_string(&self) -> (text: String)
        ensures
            text@ == self@.rendered(),
    {
        match self {
            Source::Table(table) => table.to_string(),
            Source::Query(query) => {
                let mut text = String::new();
                text.append("(");
                text.append(query.as_str());
                text.append(") _");
                proof {
                    reveal_strlit("(");
                    reveal_strlit(") _");
                    assert(text@ =~= self@.rendered());
                }
                text
            },
        }
    }
}

/// The command that exports `columns` of `relation` in binary format.
pub open spec fn copy_command(columns: Seq<char>, relation: Seq<char>) -> Seq<char> {
    "COPY (SELECT "@ + columns + " FROM "@ + relation + ") TO STDOUT (FORMAT BINARY)"@
}

/// Writes the command that exports `columns` of `relation` in binary format.
pub fn copy_query(columns: &str, relation: &str) -> (command: String)
    ensures
        command@ == copy_command(columns@, relation@),
{
    let mut command = String::new();
    command.append("COPY (SELECT ");
    command.append(columns);
    command.append(" FROM ");
    command.append(relation);
    command.append(") TO STDOUT (FORMAT BINARY)");
    proof {
        assert(command@ =~= copy_command(columns@, relation@));
    }
    command
}

} // verus!
