use vstd::prelude::*;
use vstd::string::StrSliceExecFns;
use vstd::string::StringExecFns;
use crate::table::Table;
use crate::table::TableView;

verus! {

/// The SQL string-literal escape: every single quote of the value is doubled;
/// every other character is kept as it is.
pub open spec fn escaped(s: Seq<char>) -> Seq<char>
    decreases s.len(),
{
    if s.len() == 0 {
        Seq::empty()
    } else {
        (if s[0] == '\'' {
            seq!['\'', '\'']
        } else {
            seq![s[0]]
        }) + escaped(s.skip(1))
    }
}

/// Reading an escaped value back: a doubled single quote stands for one
/// single quote; every other character stands for itself.
pub open spec fn unescaped(s: Seq<char>) -> Seq<char>
    decreases s.len(),
{
    if s.len() == 0 {
        Seq::empty()
    } else if s.len() >= 2 && s[0] == '\'' && s[1] == '\'' {
        seq!['\''] + unescaped(s.skip(2))
    } else {
        seq![s[0]] + unescaped(s.skip(1))
    }
}

/// How often the single-quote character occurs in a string.
pub open spec fn quote_count(s: Seq<char>) -> nat
    decreases s.len(),
{
    if s.len() == 0 {
        0
    } else {
        (if s[0] == '\'' {
            1nat
        } else {
            0nat
        }) + quote_count(s.skip(1))
    }
}

proof fn lemma_escaped_push(s: Seq<char>, c: char)
    ensures
        escaped(s.push(c)) == escaped(s) + (if c == '\'' {
            seq!['\'', '\'']
        } else {
            seq![c]
        }),
    decreases s.len(),
{
    let part = if c == '\'' {
        seq!['\'', '\'']
    } else {
        seq![c]
    };
    if s.len() == 0 {
        assert(s.push(c) =~= seq![c]);
        assert(seq![c].skip(1) =~= Seq::<char>::empty());
        assert(seq![c][0] == c);
        assert(escaped(seq![c]) == part + escaped(seq![c].skip(1)));
        assert(part + Seq::<char>::empty() =~= part);
        assert(escaped(s) + part =~= part);
    } else {
        let part0 = if s[0] == '\'' {
            seq!['\'', '\'']
        } else {
            seq![s[0]]
        };
        assert(s.push(c).skip(1) =~= s.skip(1).push(c));
        lemma_escaped_push(s.skip(1), c);
        assert(s.push(c)[0] == s[0]);
        assert(escaped(s.push(c)) == part0 + (escaped(s.skip(1)) + part));
        assert(part0 + (escaped(s.skip(1)) + part) =~= (part0 + escaped(s.skip(1))) + part);
        assert(escaped(s) == part0 + escaped(s.skip(1)));
    }
}

/// The parts joined into one string, with the separator between
/// neighbouring parts and nowhere else.
pub open spec fn joined(parts: Seq<Seq<char>>, sep: Seq<char>) -> Seq<char>
    decreases parts.len(),
{
    if parts.len() == 0 {
        Seq::empty()
    } else if parts.len() == 1 {
        parts[0]
    } else {
        parts[0] + sep + joined(parts.skip(1), sep)
    }
}

proof fn lemma_joined_push(parts: Seq<Seq<char>>, sep: Seq<char>, x: Seq<char>)
    ensures
        joined(parts.push(x), sep) == if parts.len() == 0 {
            x
        } else {
            joined(parts, sep) + sep + x
        },
    decreases parts.len(),
{
    if parts.len() == 0 {
        assert(parts.push(x) =~= seq![x]);
        assert(joined(seq![x], sep) == x);
    } else if parts.len() == 1 {
        assert(parts.push(x).skip(1) =~= seq![x]);
        assert(parts.push(x)[0] == parts[0]);
        assert(joined(seq![x], sep) == x);
        assert(joined(parts.push(x), sep) == parts[0] + sep + x);
        assert(joined(parts, sep) == parts[0]);
    } else {
        assert(parts.push(x).skip(1) =~= parts.skip(1).push(x));
        lemma_joined_push(parts.skip(1), sep, x);
        assert(parts.push(x)[0] == parts[0]);
        assert(joined(parts.push(x), sep) == parts[0] + sep + (joined(parts.skip(1), sep) + sep
            + x));
        assert(parts[0] + sep + (joined(parts.skip(1), sep) + sep + x) =~= (parts[0] + sep
            + joined(parts.skip(1), sep)) + sep + x);
        assert(joined(parts, sep) == parts[0] + sep + joined(parts.skip(1), sep));
    }
}

/// One column clause of the schema statement: the header field between
/// double quotes, typed TEXT. The field itself is interpolated verbatim: an
/// embedded double quote is not escaped.
pub open spec fn column_clause(col: Seq<char>) -> Seq<char> {
    seq!['"'] + col + "\" TEXT"@
}

/// The column clauses of a header, one per field, in header order.
pub open spec fn column_clauses(header: Seq<Seq<char>>) -> Seq<Seq<char>> {
    header.map_values(|c: Seq<char>| column_clause(c))
}

/// One value of an insertion statement: the cell with its single quotes
/// doubled, between one pair of single quotes.
pub open spec fn sql_literal(v: Seq<char>) -> Seq<char> {
    seq!['\''] + escaped(v) + seq!['\'']
}

/// The literals of one insertion statement, one per cell, in record order.
pub open spec fn sql_literals(record: Seq<Seq<char>>) -> Seq<Seq<char>> {
    record.map_values(|v: Seq<char>| sql_literal(v))
}

/// The schema statement of a table.
pub open spec fn schema_line(name: Seq<char>, header: Seq<Seq<char>>) -> Seq<char> {
    "CREATE TABLE "@ + name + " ("@ + joined(column_clauses(header), ", "@) + ");"@
}

/// The insertion statement of one record. Its value count is the record's
/// own field count, never clamped to the header's.
pub open spec fn insert_line(name: Seq<char>, record: Seq<Seq<char>>) -> Seq<char> {
    "INSERT INTO "@ + name + " VALUES ("@ + joined(sql_literals(record), ", "@) + ");"@
}

/// The insertion statements of a table, one per record, in record order.
pub open spec fn insert_lines(name: Seq<char>, records: Seq<Seq<Seq<char>>>) -> Seq<Seq<char>> {
    records.map_values(|r: Seq<Seq<char>>| insert_line(name, r))
}

/// The whole script: the schema statement, a newline, and the insertion
/// statements joined by newlines.
pub open spec fn script(t: TableView) -> Seq<char> {
    schema_line(t.name, t.header) + "\n"@ + joined(insert_lines(t.name, t.records), "\n"@)
}

/// A loaded table renders to exactly one schema statement, then one
/// insertion statement per data record of the input stream (every record
/// after the header), in input order, joined by newlines.
pub proof fn lemma_loaded_script_shape(name: Seq<char>, stream: Seq<Seq<Seq<char>>>, t: TableView)
    requires
        stream.len() > 0,
        t.name == name,
        t.header == stream[0],
        t.records == stream.skip(1),
    ensures
        script(t) == schema_line(name, stream[0]) + "\n"@ + joined(
            insert_lines(name, stream.skip(1)),
            "\n"@,
        ),
        insert_lines(name, stream.skip(1)).len() == stream.len() - 1,
        forall|i: int|
            0 <= i < stream.len() - 1 ==> insert_lines(name, stream.skip(1))[i] == insert_line(
                name,
                stream[i + 1],
            ),
{
}

/// The schema statement of a header with N fields holds exactly N column
/// clauses, one per field in header order, each the double-quoted field name
/// typed TEXT, joined by ", ".
pub proof fn lemma_schema_columns(name: Seq<char>, header: Seq<Seq<char>>)
    ensures
        schema_line(name, header) == "CREATE TABLE "@ + name + " ("@ + joined(
            column_clauses(header),
            ", "@,
        ) + ");"@,
        column_clauses(header).len() == header.len(),
        forall|i: int|
            0 <= i < header.len() ==> column_clauses(header)[i] == seq!['"'] + header[i]
                + "\" TEXT"@,
{
}

/// The insertion statement of a record holds one value literal per field of
/// that record — the record's own field count, whether or not it matches the
/// header's — in field order.
pub proof fn lemma_insert_values(name: Seq<char>, record: Seq<Seq<char>>)
    ensures
        insert_line(name, record) == "INSERT INTO "@ + name + " VALUES ("@ + joined(
            sql_literals(record),
            ", "@,
        ) + ");"@,
        sql_literals(record).len() == record.len(),
        forall|i: int|
            0 <= i < record.len() ==> sql_literals(record)[i] == sql_literal(record[i]),
{
}

/// Escaping a cell value doubles every single quote in it and nothing else:
/// the value literal wraps the escaped value in exactly one pair of single
/// quotes, and unescaping the doubled quotes recovers the original value.
pub proof fn lemma_escape_round_trip(v: Seq<char>)
    ensures
        sql_literal(v) == seq!['\''] + escaped(v) + seq!['\''],
        unescaped(escaped(v)) == v,
        quote_count(escaped(v)) == 2 * quote_count(v),
        escaped(v).len() == v.len() + quote_count(v),
        quote_count(v) == 0 ==> escaped(v) == v,
    decreases v.len(),
{
    if v.len() == 0 {
        assert(escaped(v) == Seq::<char>::empty());
        assert(unescaped(escaped(v)) =~= v);
    } else {
        lemma_escape_round_trip(v.skip(1));
        let e = escaped(v.skip(1));
        if v[0] == '\'' {
            let s = seq!['\'', '\''] + e;
            assert(escaped(v) == s);
            assert(s.len() >= 2 && s[0] == '\'' && s[1] == '\'');
            assert(s.skip(2) =~= e);
            assert(unescaped(s) == seq!['\''] + unescaped(e));
            assert(seq!['\''] + v.skip(1) =~= v);
            assert(s.skip(1) =~= seq!['\''] + e);
            assert(quote_count(s) == 1 + quote_count(seq!['\''] + e));
            assert((seq!['\''] + e).skip(1) =~= e);
            assert(quote_count(seq!['\''] + e) == 1 + quote_count(e));
        } else {
            let s = seq![v[0]] + e;
            assert(escaped(v) == s);
            assert(s[0] == v[0]);
            assert(s.skip(1) =~= e);
            assert(unescaped(s) == seq![v[0]] + unescaped(e));
            assert(seq![v[0]] + v.skip(1) =~= v);
            assert(quote_count(s) == quote_count(e));
        }
    }
}

/// Appends one character to the string.
/// Relies on String::push: it appends the given character to the end.
#[verifier::external_body]
fn push_char(s: &mut String, c: char)
    ensures
        final(s)@ == old(s)@ + seq![c],
{
    s.push(c);
}

/// Doubles every single quote of the value, keeping all else unchanged.
fn escape_cell(v: &str) -> (r: String)
    ensures
        r@ == escaped(v@),
{
    let mut out = String::new();
    let n = v.unicode_len();
    let mut i: usize = 0;
    while i < n
        invariant
            i <= n,
            n == v@.len(),
            out@ == escaped(v@.take(i as int)),
        decreases n - i,
    {
        let c = v.get_char(i);
        if c == '\'' {
            push_char(&mut out, '\'');
            push_char(&mut out, '\'');
        } else {
            push_char(&mut out, c);
        }
        proof {
            lemma_escaped_push(v@.take(i as int), c);
            assert(v@.take(i as int).push(c) =~= v@.take(i + 1));
            if c == '\'' {
                assert(out@ =~= escaped(v@.take(i as int)) + seq!['\'', '\'']);
            }
        }
        i += 1;
    }
    proof {
        assert(v@.take(n as int) =~= v@);
    }
    out
}

/// Builds one column clause of the schema statement.
fn column_clause_exec(col: &String) -> (r: String)
    ensures
        r@ == column_clause(col@),
{
    let mut out = String::new();
    push_char(&mut out, '"');
    out.append(col.as_str());
    out.append("\" TEXT");
    proof {
        assert(out@ =~= column_clause(col@));
    }
    out
}

/// Builds one value literal of an insertion statement.
fn sql_literal_exec(v: &String) -> (r: String)
    ensures
        r@ == sql_literal(v@),
{
    let mut out = String::new();
    push_char(&mut out, '\'');
    let e = escape_cell(v.as_str());
    out.append(e.as_str());
    push_char(&mut out, '\'');
    proof {
        assert(out@ =~= sql_literal(v@));
    }
    out
}

/// Builds the insertion statement of one record.
fn insert_line_exec(name: &String, record: &Vec<String>) -> (r: String)
    ensures
        r@ == insert_line(name@, record.deep_view()),
{
    let ghost lits = sql_literals(record.deep_view());
    let ghost prefix = "INSERT INTO "@ + name@ + " VALUES ("@;
    let mut out = String::new();
    out.append("INSERT INTO ");
    out.append(name.as_str());
    out.append(" VALUES (");
    proof {
        assert(lits.take(0) =~= Seq::<Seq<char>>::empty());
        assert(joined(Seq::<Seq<char>>::empty(), ", "@) == Seq::<char>::empty());
        assert(out@ =~= prefix + joined(lits.take(0), ", "@));
    }
    let mut i: usize = 0;
    while i < record.len()
        invariant
            i <= record.len(),
            lits == sql_literals(record.deep_view()),
            prefix == "INSERT INTO "@ + name@ + " VALUES ("@,
            out@ == prefix + joined(lits.take(i as int), ", "@),
        decreases record.len() - i,
    {
        if i > 0 {
            out.append(", ");
        }
        let lit = sql_literal_exec(&record[i]);
        out.append(lit.as_str());
        proof {
            lemma_joined_push(lits.take(i as int), ", "@, lit@);
            assert(lits[i as int] == lit@);
            assert(lits.take(i as int).push(lit@) =~= lits.take(i + 1));
            assert(out@ =~= prefix + joined(lits.take(i + 1), ", "@));
        }
        i += 1;
    }
    out.append(");");
    proof {
        assert(lits.take(record.len() as int) =~= lits);
        assert(out@ =~= insert_line(name@, record.deep_view()));
    }
    out
}

impl Table {
    /// Renders the table as one SQL script: a schema statement that types
    /// every column TEXT, then one insertion statement per record, in record
    /// order, joined by newlines. The table and column names are interpolated
    /// verbatim between their quotes, not escaped.
    pub fn to_sql_query(&self) -> (r: String)
        ensures
            r@ == script(self@),
    {
        let ghost cols = column_clauses(self@.header);
        let mut out = String::new();
        out.append("CREATE TABLE ");
        out.append(self.name.as_str());
        out.append(" (");
        let ghost prefix = "CREATE TABLE "@ + self.name@ + " ("@;
        proof {
            assert(cols.take(0) =~= Seq::<Seq<char>>::empty());
            assert(joined(Seq::<Seq<char>>::empty(), ", "@) == Seq::<char>::empty());
            assert(out@ =~= prefix + joined(cols.take(0), ", "@));
        }
        let mut i: usize = 0;
        while i < self.header.len()
            invariant
                i <= self.header.len(),
                cols == column_clauses(self@.header),
                prefix == "CREATE TABLE "@ + self.name@ + " ("@,
                out@ == prefix + joined(cols.take(i as int), ", "@),
            decreases self.header.len() - i,
        {
            if i > 0 {
                out.append(", ");
            }
            let clause = column_clause_exec(&self.header[i]);
            out.append(clause.as_str());
            proof {
                lemma_joined_push(cols.take(i as int), ", "@, clause@);
                assert(cols[i as int] == clause@);
                assert(cols.take(i as int).push(clause@) =~= cols.take(i + 1));
                assert(out@ =~= prefix + joined(cols.take(i + 1), ", "@));
            }
            i += 1;
        }
        out.append(");");
        out.append("\n");
        let ghost head = schema_line(self@.name, self@.header) + "\n"@;
        let ghost lines = insert_lines(self@.name, self@.records);
        proof {
            assert(cols.take(self.header.len() as int) =~= cols);
            assert(lines.take(0) =~= Seq::<Seq<char>>::empty());
            assert(joined(Seq::<Seq<char>>::empty(), "\n"@) == Seq::<char>::empty());
            assert(out@ =~= head + joined(lines.take(0), "\n"@));
        }
        let mut j: usize = 0;
        while j < self.records.len()
            invariant
                j <= self.records.len(),
                head == schema_line(self@.name, self@.header) + "\n"@,
                lines == insert_lines(self@.name, self@.records),
                out@ == head + joined(lines.take(j as int), "\n"@),
            decreases self.records.len() - j,
        {
            if j > 0 {
                out.append("\n");
            }
            let line = insert_line_exec(&self.name, &self.records[j]);
            out.append(line.as_str());
            proof {
                lemma_joined_push(lines.take(j as int), "\n"@, line@);
                assert(lines[j as int] == line@);
                assert(lines.take(j as int).push(line@) =~= lines.take(j + 1));
                assert(out@ =~= head + joined(lines.take(j + 1), "\n"@));
            }
            j += 1;
        }
        proof {
            assert(lines.take(self.records.len() as int) =~= lines);
            assert(out@ =~= script(self@));
        }
        out
    }
}

} // verus!
