use vstd::prelude::*;
use vstd::string::StrSliceExecFns;

use crate::person::{Person, PersonView, person_views};
use crate::text::{bool_str, bool_word, has_no_break, has_no_space, is_space, lemma_lines_cons, lemma_words_join, lemma_words_single, lines, parse_bool, parse_bool_spec, split_lines, split_words, views, words};

verus! {

/// The name that marks the administrator's record in the user list.
pub open spec fn admin_name() -> Seq<char> {
    seq!['A', 'D', 'M', 'I', 'N']
}

/// The line that stands for `p` in the user list (without its line feed):
/// `ADMIN <password>` for the administrator, `<name> <blocked> <limit>` for a user
/// with no password, and `<name> <password> <blocked> <limit>` for any other.
pub open spec fn record(p: PersonView) -> Seq<char> {
    let sp = seq![' '];
    if p.name == admin_name() {
        p.name + sp + p.password
    } else if p.password.len() == 0 {
        p.name + sp + bool_word(p.blocked) + sp + bool_word(p.limit)
    } else {
        p.name + sp + p.password + sp + bool_word(p.blocked) + sp + bool_word(p.limit)
    }
}

/// The whole user list: each record followed by a line feed.
pub open spec fn list_text(ps: Seq<PersonView>) -> Seq<char>
    decreases ps.len(),
{
    if ps.len() == 0 {
        seq![]
    } else {
        record(ps[0]) + seq!['\n'] + list_text(ps.drop_first())
    }
}

/// The words of a line of the user list can be read: there are two, or three of
/// which the last two are `true` or `false`, or at least four of which the third
/// and fourth are.
pub open spec fn words_are_valid(w: Seq<Seq<char>>) -> bool {
    ||| w.len() == 2
    ||| w.len() == 3 && parse_bool_spec(w[1]) is Some && parse_bool_spec(w[2]) is Some
    ||| w.len() >= 4 && parse_bool_spec(w[2]) is Some && parse_bool_spec(w[3]) is Some
}

/// The person that valid words of a line of the user list stand for.
pub open spec fn person_of_words(w: Seq<Seq<char>>) -> PersonView {
    if w.len() == 2 {
        PersonView { name: w[0], password: w[1], blocked: false, limit: false }
    } else if w.len() == 3 {
        PersonView {
            name: w[0],
            password: seq![],
            blocked: parse_bool_spec(w[1])->Some_0,
            limit: parse_bool_spec(w[2])->Some_0,
        }
    } else {
        PersonView {
            name: w[0],
            password: w[1],
            blocked: parse_bool_spec(w[2])->Some_0,
            limit: parse_bool_spec(w[3])->Some_0,
        }
    }
}

/// A line of the user list can be read.
pub open spec fn line_is_valid(l: Seq<char>) -> bool {
    words_are_valid(words(l))
}

/// The person that a valid line of the user list stands for.
pub open spec fn person_of_line(l: Seq<char>) -> PersonView {
    person_of_words(words(l))
}

/// What reading the user list `text` gives: the persons of its lines, in order, when
/// every line is valid, and `None` otherwise.
pub open spec fn user_list_of(text: Seq<char>) -> Option<Seq<PersonView>> {
    let ls = lines(text);
    if forall|i: int| 0 <= i < ls.len() ==> line_is_valid(#[trigger] ls[i]) {
        Some(ls.map_values(|l: Seq<char>| person_of_line(l)))
    } else {
        None
    }
}

fn person_from_words(w: &Vec<String>) -> (r: Option<Person>)
    ensures
        r is Some <==> words_are_valid(views(w@)),
        r matches Some(p) ==> p@ == person_of_words(views(w@)),
{
    let n = w.len();
    if n < 2 {
        return None;
    }
    if n == 2 {
        return Some(Person::new().name(w[0].clone()).password(w[1].clone()));
    }
    if n == 3 {
        let b = parse_bool(&w[1]);
        let l = parse_bool(&w[2]);
        match (b, l) {
            (Some(b), Some(l)) => Some(Person::new().name(w[0].clone()).is_blocked(b).is_limit(l)),
            _ => None,
        }
    } else {
        let b = parse_bool(&w[2]);
        let l = parse_bool(&w[3]);
        match (b, l) {
            (Some(b), Some(l)) => Some(
                Person::new().name(w[0].clone()).password(w[1].clone()).is_blocked(b).is_limit(l),
            ),
            _ => None,
        }
    }
}

/// Reads one line of the user list; `None` where the line cannot be read.
pub fn read_person_line(line: &str) -> (r: Option<Person>)
    ensures
        r is Some <==> line_is_valid(line@),
        r matches Some(p) ==> p@ == person_of_line(line@),
{
    let w = split_words(line);
    person_from_words(&w)
}

/// Reads one valid line of the user list.
pub fn parse_person_line(line: &str) -> (p: Person)
    requires
        line_is_valid(line@),
    ensures
        p@ == person_of_line(line@),
{
    match read_person_line(line) {
        Some(p) => p,
        None => Person::new(),
    }
}

/// Reads the whole user list; `None` when some line of it cannot be read.
pub fn read_user_list(text: &str) -> (r: Option<Vec<Person>>)
    ensures
        r matches Some(ps) ==> user_list_of(text@) == Some(person_views(ps@)),
        r is None ==> user_list_of(text@) is None,
{
    let ls = split_lines(text);
    let ghost lv = lines(text@);
    let mut out: Vec<Person> = Vec::new();
    let mut i: usize = 0;
    while i < ls.len()
        invariant
            views(ls@) == lv,
            lv == lines(text@),
            i <= ls.len(),
            out@.len() == i,
            forall|k: int| 0 <= k < i ==> line_is_valid(#[trigger] lv[k]),
            forall|k: int| 0 <= k < i ==> (#[trigger] out@[k])@ == person_of_line(lv[k]),
        decreases ls.len() - i,
    {
        assert(ls@[i as int]@ == lv[i as int]);
        match read_person_line(ls[i].as_str()) {
            Some(p) => {
                out.push(p);
            },
            None => {
                return None;
            },
        }
        i = i + 1;
    }
    assert(person_views(out@) =~= lv.map_values(|l: Seq<char>| person_of_line(l)));
    Some(out)
}

/// The line that stands for `p` in the user list, without its line feed.
pub fn person_record(p: &Person) -> (r: String)
    ensures
        r@ == record(p@),
{
    proof {
        reveal_strlit("ADMIN");
        reveal_strlit(" ");
    }
    let admin = String::from_str("ADMIN");
    assert(admin@ =~= admin_name());
    let mut line = String::new();
    if p.name == admin {
        line.append(p.name.as_str());
        line.append(" ");
        line.append(p.password.as_str());
    } else if p.password.unicode_len() == 0 {
        line.append(p.name.as_str());
        line.append(" ");
        line.append(bool_str(p.blocked));
        line.append(" ");
        line.append(bool_str(p.limit));
    } else {
        line.append(p.name.as_str());
        line.append(" ");
        line.append(p.password.as_str());
        line.append(" ");
        line.append(bool_str(p.blocked));
        line.append(" ");
        line.append(bool_str(p.limit));
    }
    assert(line@ =~= record(p@));
    line
}

proof fn lemma_list_text_snoc(ps: Seq<PersonView>)
    requires
        ps.len() > 0,
    ensures
        list_text(ps) == list_text(ps.drop_last()) + record(ps.last()) + seq!['\n'],
    decreases ps.len(),
{
    if ps.len() > 1 {
        lemma_list_text_snoc(ps.drop_first());
        assert(ps.drop_first().drop_last() =~= ps.drop_last().drop_first());
        assert(list_text(ps) =~= list_text(ps.drop_last()) + record(ps.last()) + seq!['\n']);
    } else {
        assert(ps.drop_first() =~= Seq::<PersonView>::empty());
        assert(ps.drop_last() =~= Seq::<PersonView>::empty());
        assert(list_text(ps) =~= list_text(ps.drop_last()) + record(ps.last()) + seq!['\n']);
    }
}

/// The whole user list as it is written to its file.
pub fn user_list_text(ps: &Vec<Person>) -> (r: String)
    ensures
        r@ == list_text(person_views(ps@)),
{
    let mut text = String::new();
    let mut i: usize = 0;
    assert(person_views(ps@).take(0) =~= Seq::<PersonView>::empty());
    while i < ps.len()
        invariant
            i <= ps.len(),
            text@ == list_text(person_views(ps@).take(i as int)),
        decreases ps.len() - i,
    {
        let line = person_record(&ps[i]);
        assert(person_views(ps@)[i as int] == ps@[i as int]@);
        let ghost before = text@;
        text.append(line.as_str());
        text.append("\n");
        proof {
            let pv = person_views(ps@);
            reveal_strlit("\n");
            assert(text@ =~= before + record(pv[i as int]) + seq!['\n']);
            lemma_list_text_snoc(pv.take(i + 1));
            assert(pv.take(i + 1).drop_last() =~= pv.take(i as int));
            assert(pv.take(i + 1).last() == pv[i as int]);
        }
        i = i + 1;
    }
    assert(person_views(ps@).take(ps.len() as int) =~= person_views(ps@));
    text
}


/// A person whose record reads back as that person: a name of one or more
/// characters and a password with no whitespace in either, and, for the
/// administrator, a password and neither flag set.
pub open spec fn storable(p: PersonView) -> bool {
    &&& p.name.len() > 0
    &&& has_no_space(p.name)
    &&& has_no_space(p.password)
    &&& p.name == admin_name() ==> p.password.len() > 0 && !p.blocked && !p.limit
}

proof fn lemma_bool_word(b: bool)
    ensures
        bool_word(b).len() > 0,
        has_no_space(bool_word(b)),
        parse_bool_spec(bool_word(b)) == Some(b),
{
    assert(bool_word(true) != bool_word(false)) by {
        assert(bool_word(true).len() != bool_word(false).len());
    }
}

proof fn lemma_no_space_no_break(s: Seq<char>)
    requires
        has_no_space(s),
    ensures
        has_no_break(s),
{
    assert forall|i: int| 0 <= i < s.len() implies #[trigger] s[i] != '\n' && s[i] != '\r' by {
        assert(!is_space(s[i]));
    }
}

proof fn lemma_join_no_break(a: Seq<char>, b: Seq<char>)
    requires
        has_no_break(a),
        has_no_break(b),
    ensures
        has_no_break(a + b),
{
    assert forall|i: int| 0 <= i < (a + b).len() implies #[trigger] (a + b)[i] != '\n' && (a
        + b)[i] != '\r' by {
        if i < a.len() {
            assert((a + b)[i] == a[i]);
        } else {
            assert((a + b)[i] == b[i - a.len()]);
        }
    }
}

/// The record of a storable person holds no line break.
proof fn lemma_record_no_break(p: PersonView)
    requires
        storable(p),
    ensures
        has_no_break(record(p)),
{
    let sp = seq![' '];
    assert(has_no_break(sp));
    lemma_no_space_no_break(p.name);
    lemma_no_space_no_break(p.password);
    lemma_bool_word(p.blocked);
    lemma_bool_word(p.limit);
    lemma_no_space_no_break(bool_word(p.blocked));
    lemma_no_space_no_break(bool_word(p.limit));
    lemma_join_no_break(p.name, sp);
    lemma_join_no_break(p.name + sp, p.password);
    lemma_join_no_break(p.name + sp, bool_word(p.blocked));
    lemma_join_no_break(p.name + sp + bool_word(p.blocked), sp);
    lemma_join_no_break(p.name + sp + bool_word(p.blocked) + sp, bool_word(p.limit));
    lemma_join_no_break(p.name + sp + p.password, sp);
    lemma_join_no_break(p.name + sp + p.password + sp, bool_word(p.blocked));
    lemma_join_no_break(p.name + sp + p.password + sp + bool_word(p.blocked), sp);
    lemma_join_no_break(
        p.name + sp + p.password + sp + bool_word(p.blocked) + sp,
        bool_word(p.limit),
    );
}

/// Reading back the record of a storable person gives that person.
pub proof fn lemma_record_round_trip(p: PersonView)
    requires
        storable(p),
    ensures
        line_is_valid(record(p)),
        person_of_line(record(p)) == p,
{
    let sp = seq![' '];
    let n = p.name;
    let w = p.password;
    let bt = bool_word(p.blocked);
    let bl = bool_word(p.limit);
    lemma_bool_word(p.blocked);
    lemma_bool_word(p.limit);
    lemma_words_single(n);
    lemma_words_single(bt);
    lemma_words_single(bl);
    if n == admin_name() {
        lemma_words_single(w);
        lemma_words_join(n, ' ', w);
        assert(words(record(p)) =~= seq![n, w]);
    } else if w.len() == 0 {
        lemma_words_join(n, ' ', bt);
        lemma_words_join(n + sp + bt, ' ', bl);
        assert(words(record(p)) =~= seq![n, bt, bl]);
        assert(w =~= Seq::<char>::empty());
    } else {
        lemma_words_single(w);
        lemma_words_join(n, ' ', w);
        lemma_words_join(n + sp + w, ' ', bt);
        lemma_words_join(n + sp + w + sp + bt, ' ', bl);
        assert(words(record(p)) =~= seq![n, w, bt, bl]);
    }
}

/// The lines of a written user list are the records of its persons.
proof fn lemma_lines_of_list(ps: Seq<PersonView>)
    requires
        forall|i: int| 0 <= i < ps.len() ==> storable(#[trigger] ps[i]),
    ensures
        lines(list_text(ps)) == ps.map_values(|p: PersonView| record(p)),
    decreases ps.len(),
{
    if ps.len() == 0 {
        assert(lines(list_text(ps)) =~= ps.map_values(|p: PersonView| record(p)));
    } else {
        assert(storable(ps[0]));
        lemma_record_no_break(ps[0]);
        lemma_lines_cons(record(ps[0]), list_text(ps.drop_first()));
        assert forall|i: int| 0 <= i < ps.drop_first().len() implies storable(
            #[trigger] ps.drop_first()[i],
        ) by {
            assert(ps.drop_first()[i] == ps[i + 1]);
        }
        lemma_lines_of_list(ps.drop_first());
        assert(lines(list_text(ps)) =~= ps.map_values(|p: PersonView| record(p)));
    }
}

/// Reading back a written user list of storable persons gives the same persons,
/// in the same order.
pub proof fn lemma_user_list_round_trip(ps: Seq<PersonView>)
    requires
        forall|i: int| 0 <= i < ps.len() ==> storable(#[trigger] ps[i]),
    ensures
        user_list_of(list_text(ps)) == Some(ps),
{
    lemma_lines_of_list(ps);
    let ls = lines(list_text(ps));
    assert forall|i: int| 0 <= i < ls.len() implies line_is_valid(#[trigger] ls[i]) by {
        lemma_record_round_trip(ps[i]);
    }
    assert forall|i: int| 0 <= i < ls.len() implies person_of_line(#[trigger] ls[i]) == ps[i] by {
        lemma_record_round_trip(ps[i]);
    }
    assert(ls.map_values(|l: Seq<char>| person_of_line(l)) =~= ps);
}


/// The word `true` as the user list writes it.
pub open spec fn true_text() -> Seq<char> {
    seq!['t', 'r', 'u', 'e']
}

/// The word `false` as the user list writes it.
pub open spec fn false_text() -> Seq<char> {
    seq!['f', 'a', 'l', 's', 'e']
}

/// The words of the record of a storable person: the administrator's name and
/// password; or a user's name and then the two flags as `true`/`false`, blocked first;
/// or a user's name, password and the two flags. The name always comes first, and a
/// user with a password always has four words.
pub proof fn law_record_words(p: PersonView)
    requires
        storable(p),
    ensures
        ({
            let b = if p.blocked {
                true_text()
            } else {
                false_text()
            };
            let l = if p.limit {
                true_text()
            } else {
                false_text()
            };
            words(record(p)) == if p.name == seq!['A', 'D', 'M', 'I', 'N'] {
                seq![p.name, p.password]
            } else if p.password.len() == 0 {
                seq![p.name, b, l]
            } else {
                seq![p.name, p.password, b, l]
            }
        }),
{
    let sp = seq![' '];
    let n = p.name;
    let w = p.password;
    let bt = bool_word(p.blocked);
    let bl = bool_word(p.limit);
    lemma_bool_word(p.blocked);
    lemma_bool_word(p.limit);
    lemma_words_single(n);
    lemma_words_single(bt);
    lemma_words_single(bl);
    if n == admin_name() {
        lemma_words_single(w);
        lemma_words_join(n, ' ', w);
        assert(words(record(p)) =~= seq![n, w]);
    } else if w.len() == 0 {
        lemma_words_join(n, ' ', bt);
        lemma_words_join(n + sp + bt, ' ', bl);
        assert(words(record(p)) =~= seq![n, bt, bl]);
    } else {
        lemma_words_single(w);
        lemma_words_join(n, ' ', w);
        lemma_words_join(n + sp + w, ' ', bt);
        lemma_words_join(n + sp + w + sp + bt, ' ', bl);
        assert(words(record(p)) =~= seq![n, w, bt, bl]);
    }
}

proof fn lemma_flag_words()
    ensures
        parse_bool_spec(true_text()) == Some(true),
        parse_bool_spec(false_text()) == Some(false),
        true_text() != false_text(),
{
    assert(true_text().len() != false_text().len());
}

/// A line of two words reads as the name and the password of a person who is
/// neither blocked nor limited.
pub proof fn law_two_word_line(line: Seq<char>)
    requires
        words(line).len() == 2,
    ensures
        line_is_valid(line),
        person_of_line(line) == (PersonView {
            name: words(line)[0],
            password: words(line)[1],
            blocked: false,
            limit: false,
        }),
{
}

/// A line of three words whose last two are each `true` or `false` reads as a
/// person with that name, no password, and those flags, blocked first.
pub proof fn law_three_word_line(line: Seq<char>)
    requires
        words(line).len() == 3,
        words(line)[1] == true_text() || words(line)[1] == false_text(),
        words(line)[2] == true_text() || words(line)[2] == false_text(),
    ensures
        line_is_valid(line),
        person_of_line(line) == (PersonView {
            name: words(line)[0],
            password: seq![],
            blocked: words(line)[1] == true_text(),
            limit: words(line)[2] == true_text(),
        }),
{
    lemma_flag_words();
}

/// A line of four or more words whose third and fourth are each `true` or `false`
/// reads as a person with the first word as name, the second as password, and
/// those flags, blocked first; further words are ignored.
pub proof fn law_four_word_line(line: Seq<char>)
    requires
        words(line).len() >= 4,
        words(line)[2] == true_text() || words(line)[2] == false_text(),
        words(line)[3] == true_text() || words(line)[3] == false_text(),
    ensures
        line_is_valid(line),
        person_of_line(line) == (PersonView {
            name: words(line)[0],
            password: words(line)[1],
            blocked: words(line)[2] == true_text(),
            limit: words(line)[3] == true_text(),
        }),
{
    lemma_flag_words();
}

/// A line of fewer than two words, or of three or more whose flag words are not
/// `true` or `false`, cannot be read.
pub proof fn law_unreadable_lines(line: Seq<char>)
    ensures
        words(line).len() < 2 ==> !line_is_valid(line),
        words(line).len() == 3 && !(words(line)[1] == true_text() || words(line)[1]
            == false_text()) ==> !line_is_valid(line),
        words(line).len() >= 4 && !(words(line)[2] == true_text() || words(line)[2]
            == false_text()) ==> !line_is_valid(line),
{
    lemma_flag_words();
}

} // verus!
