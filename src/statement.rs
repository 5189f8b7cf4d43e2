//! Assembly of a statement: each line is classified by its leading
//! characters, decoded, and either stored, opened as a new entry, or added to
//! the entry that it continues; at the end the mandatory records are checked.

use vstd::prelude::*;

use crate::field::ValueError;
use crate::text::{decode_text, lines_of, split_lines, strict_decoding, whatwg_label_known};
use crate::record::{
    free_communication_following, free_communication_of, header_of, information_of,
    information_type2, information_type3, movement_of, movement_type2, movement_type3,
    new_balance_of, old_balance_of, trailer_of, Field, FieldError, FreeCommunication,
    FreeCommunicationView, Header, HeaderView, Information, InformationView, Movement,
    MovementView, NewBalance, NewBalanceView, OldBalance, OldBalanceView, Trailer,
};

verus! {

/// The kinds of record that a statement holds.
#[derive(PartialEq, Eq, Structural, Clone, Copy, Debug)]
pub enum RecordKind {
    Header,
    OldBalance,
    Movement,
    Information,
    FreeCommunication,
    NewBalance,
    Trailer,
}

/// What a line is, by its leading characters.
#[derive(PartialEq, Eq, Structural, Clone, Copy, Debug)]
pub enum LineKind {
    Header,
    OldBalance,
    MovementType1,
    MovementType2,
    MovementType3,
    InformationType1,
    InformationType2,
    InformationType3,
    FreeCommunicationFirst,
    FreeCommunicationFollowing,
    NewBalance,
    Trailer,
    /// A kind of record that this decoder does not know; it is skipped.
    Other,
}

/// Why a statement could not be decoded.
#[derive(PartialEq, Eq, Structural, Clone, Copy, Debug)]
pub enum CodaError {
    /// A field of the record on line `line` (counted from 1) could not be decoded.
    FieldDecode { line: usize, record: RecordKind, field: Field, cause: ValueError },
    /// Line `line` continues a record of kind `record`, but none was opened before it.
    DanglingContinuation { line: usize, record: RecordKind },
    /// The statement lacks a mandatory record: the first one missing of
    /// header, old balance, new balance and trailer.
    IncompleteStatement { missing: RecordKind },
    /// The name of the text encoding is not known.
    UnknownEncoding,
    /// The bytes are not valid text in the named encoding.
    Undecodable,
}

pub open spec fn is_zero_detail(l: Seq<char>) -> bool {
    l.len() >= 10 && l.subrange(6, 10) == seq!['0', '0', '0', '0']
}

/// The kind of line `l`: its first character, and for movements and
/// information its second, or for free communications whether its detail
/// number (characters 6 to 9) is zero.
pub open spec fn kind_of(l: Seq<char>) -> LineKind {
    if l.len() == 0 {
        LineKind::Other
    } else if l[0] == '0' {
        LineKind::Header
    } else if l[0] == '1' {
        LineKind::OldBalance
    } else if l[0] == '2' && l.len() >= 2 && l[1] == '1' {
        LineKind::MovementType1
    } else if l[0] == '2' && l.len() >= 2 && l[1] == '2' {
        LineKind::MovementType2
    } else if l[0] == '2' && l.len() >= 2 && l[1] == '3' {
        LineKind::MovementType3
    } else if l[0] == '3' && l.len() >= 2 && l[1] == '1' {
        LineKind::InformationType1
    } else if l[0] == '3' && l.len() >= 2 && l[1] == '2' {
        LineKind::InformationType2
    } else if l[0] == '3' && l.len() >= 2 && l[1] == '3' {
        LineKind::InformationType3
    } else if l[0] == '4' {
        if is_zero_detail(l) {
            LineKind::FreeCommunicationFirst
        } else {
            LineKind::FreeCommunicationFollowing
        }
    } else if l[0] == '8' {
        LineKind::NewBalance
    } else if l[0] == '9' {
        LineKind::Trailer
    } else {
        LineKind::Other
    }
}

/// Classifies a line by its leading characters.
pub fn classify(line: &str) -> (r: LineKind)
    ensures
        r == kind_of(line@),
{
    let cs = crate::text::chars_of(line);
    let n = cs.len();
    if n == 0 {
        return LineKind::Other;
    }
    let first = cs[0];
    let second = if n >= 2 {
        cs[1]
    } else {
        ' '
    };
    if first == '0' {
        LineKind::Header
    } else if first == '1' {
        LineKind::OldBalance
    } else if first == '2' && n >= 2 && second == '1' {
        LineKind::MovementType1
    } else if first == '2' && n >= 2 && second == '2' {
        LineKind::MovementType2
    } else if first == '2' && n >= 2 && second == '3' {
        LineKind::MovementType3
    } else if first == '3' && n >= 2 && second == '1' {
        LineKind::InformationType1
    } else if first == '3' && n >= 2 && second == '2' {
        LineKind::InformationType2
    } else if first == '3' && n >= 2 && second == '3' {
        LineKind::InformationType3
    } else if first == '4' {
        if n >= 10 && cs[6] == '0' && cs[7] == '0' && cs[8] == '0' && cs[9] == '0' {
            assert(line@.subrange(6, 10) =~= seq!['0', '0', '0', '0']);
            LineKind::FreeCommunicationFirst
        } else {
            assert(n >= 10 ==> line@.subrange(6, 10)[0] == cs@[6] && line@.subrange(6, 10)[1]
                == cs@[7] && line@.subrange(6, 10)[2] == cs@[8] && line@.subrange(6, 10)[3]
                == cs@[9]);
            LineKind::FreeCommunicationFollowing
        }
    } else if first == '8' {
        LineKind::NewBalance
    } else if first == '9' {
        LineKind::Trailer
    } else {
        LineKind::Other
    }
}


/// What has been gathered of a statement after some of its lines.
pub struct Assembly {
    pub header: Option<HeaderView>,
    pub old_balance: Option<OldBalanceView>,
    pub movements: Seq<MovementView>,
    pub information: Seq<InformationView>,
    pub free_communications: Seq<FreeCommunicationView>,
    pub new_balance: Option<NewBalanceView>,
    pub trailer: Option<Trailer>,
}

pub open spec fn empty_assembly() -> Assembly {
    Assembly {
        header: None,
        old_balance: None,
        movements: Seq::empty(),
        information: Seq::empty(),
        free_communications: Seq::empty(),
        new_balance: None,
        trailer: None,
    }
}

/// The error for field error `e` in a record of kind `record` on line `n`.
pub open spec fn decode_error(n: int, record: RecordKind, e: FieldError) -> CodaError {
    CodaError::FieldDecode { line: n as usize, record, field: e.field, cause: e.cause }
}

/// `a` after line `l`, line number `n`: a singleton record is stored (a
/// later one replaces an earlier), an opening line appends a new entry, a
/// continuation line extends the last entry of its kind, and any other line
/// is skipped.
pub open spec fn step(a: Assembly, l: Seq<char>, n: int) -> Result<Assembly, CodaError> {
    match kind_of(l) {
        LineKind::Header => match header_of(l) {
            Ok(h) => Ok(Assembly { header: Some(h), ..a }),
            Err(e) => Err(decode_error(n, RecordKind::Header, e)),
        },
        LineKind::OldBalance => match old_balance_of(l) {
            Ok(b) => Ok(Assembly { old_balance: Some(b), ..a }),
            Err(e) => Err(decode_error(n, RecordKind::OldBalance, e)),
        },
        LineKind::MovementType1 => match movement_of(l) {
            Ok(m) => Ok(Assembly { movements: a.movements.push(m), ..a }),
            Err(e) => Err(decode_error(n, RecordKind::Movement, e)),
        },
        LineKind::MovementType2 => if a.movements.len() == 0 {
            Err(CodaError::DanglingContinuation { line: n as usize, record: RecordKind::Movement })
        } else {
            match movement_type2(a.movements.last(), l) {
                Ok(m) => Ok(
                    Assembly { movements: a.movements.update(a.movements.len() - 1, m), ..a },
                ),
                Err(e) => Err(decode_error(n, RecordKind::Movement, e)),
            }
        },
        LineKind::MovementType3 => if a.movements.len() == 0 {
            Err(CodaError::DanglingContinuation { line: n as usize, record: RecordKind::Movement })
        } else {
            match movement_type3(a.movements.last(), l) {
                Ok(m) => Ok(
                    Assembly { movements: a.movements.update(a.movements.len() - 1, m), ..a },
                ),
                Err(e) => Err(decode_error(n, RecordKind::Movement, e)),
            }
        },
        LineKind::InformationType1 => match information_of(l) {
            Ok(i) => Ok(Assembly { information: a.information.push(i), ..a }),
            Err(e) => Err(decode_error(n, RecordKind::Information, e)),
        },
        LineKind::InformationType2 => if a.information.len() == 0 {
            Err(
                CodaError::DanglingContinuation {
                    line: n as usize,
                    record: RecordKind::Information,
                },
            )
        } else {
            match information_type2(a.information.last(), l) {
                Ok(i) => Ok(
                    Assembly {
                        information: a.information.update(a.information.len() - 1, i),
                        ..a
                    },
                ),
                Err(e) => Err(decode_error(n, RecordKind::Information, e)),
            }
        },
        LineKind::InformationType3 => if a.information.len() == 0 {
            Err(
                CodaError::DanglingContinuation {
                    line: n as usize,
                    record: RecordKind::Information,
                },
            )
        } else {
            match information_type3(a.information.last(), l) {
                Ok(i) => Ok(
                    Assembly {
                        information: a.information.update(a.information.len() - 1, i),
                        ..a
                    },
                ),
                Err(e) => Err(decode_error(n, RecordKind::Information, e)),
            }
        },
        LineKind::FreeCommunicationFirst => match free_communication_of(l) {
            Ok(f) => Ok(Assembly { free_communications: a.free_communications.push(f), ..a }),
            Err(e) => Err(decode_error(n, RecordKind::FreeCommunication, e)),
        },
        LineKind::FreeCommunicationFollowing => if a.free_communications.len() == 0 {
            Err(
                CodaError::DanglingContinuation {
                    line: n as usize,
                    record: RecordKind::FreeCommunication,
                },
            )
        } else {
            match free_communication_following(a.free_communications.last(), l) {
                Ok(f) => Ok(
                    Assembly {
                        free_communications: a.free_communications.update(
                            a.free_communications.len() - 1,
                            f,
                        ),
                        ..a
                    },
                ),
                Err(e) => Err(decode_error(n, RecordKind::FreeCommunication, e)),
            }
        },
        LineKind::NewBalance => match new_balance_of(l) {
            Ok(b) => Ok(Assembly { new_balance: Some(b), ..a }),
            Err(e) => Err(decode_error(n, RecordKind::NewBalance, e)),
        },
        LineKind::Trailer => match trailer_of(l) {
            Ok(t) => Ok(Assembly { trailer: Some(t), ..a }),
            Err(e) => Err(decode_error(n, RecordKind::Trailer, e)),
        },
        LineKind::Other => Ok(a),
    }
}

/// What the lines `ls` gather, taken in order and numbered from 1; the
/// first error stops the pass.
pub open spec fn assemble(ls: Seq<Seq<char>>) -> Result<Assembly, CodaError>
    decreases ls.len(),
{
    if ls.len() == 0 {
        Ok(empty_assembly())
    } else {
        match assemble(ls.drop_last()) {
            Ok(a) => step(a, ls.last(), ls.len() as int),
            Err(e) => Err(e),
        }
    }
}

/// A whole statement.
pub struct CodaView {
    pub header: HeaderView,
    pub old_balance: OldBalanceView,
    pub movements: Seq<MovementView>,
    pub information: Seq<InformationView>,
    pub free_communications: Seq<FreeCommunicationView>,
    pub new_balance: NewBalanceView,
    pub trailer: Trailer,
}

/// The statement that `a` makes, if it holds every mandatory record.
pub open spec fn completed(a: Assembly) -> Result<CodaView, CodaError> {
    if a.header is None {
        Err(CodaError::IncompleteStatement { missing: RecordKind::Header })
    } else if a.old_balance is None {
        Err(CodaError::IncompleteStatement { missing: RecordKind::OldBalance })
    } else if a.new_balance is None {
        Err(CodaError::IncompleteStatement { missing: RecordKind::NewBalance })
    } else if a.trailer is None {
        Err(CodaError::IncompleteStatement { missing: RecordKind::Trailer })
    } else {
        Ok(
            CodaView {
                header: a.header->Some_0,
                old_balance: a.old_balance->Some_0,
                movements: a.movements,
                information: a.information,
                free_communications: a.free_communications,
                new_balance: a.new_balance->Some_0,
                trailer: a.trailer->Some_0,
            },
        )
    }
}

/// The statement that the lines `ls` make.
pub open spec fn statement_of(ls: Seq<Seq<char>>) -> Result<CodaView, CodaError> {
    match assemble(ls) {
        Ok(a) => completed(a),
        Err(e) => Err(e),
    }
}

/// A decoded statement.
#[derive(Debug)]
pub struct Coda {
    pub header: Header,
    pub old_balance: OldBalance,
    pub movements: Vec<Movement>,
    pub information: Vec<Information>,
    pub free_communications: Vec<FreeCommunication>,
    pub new_balance: NewBalance,
    pub trailer: Trailer,
}

pub open spec fn movements_view(v: Seq<Movement>) -> Seq<MovementView> {
    v.map_values(|m: Movement| m@)
}

pub open spec fn information_view(v: Seq<Information>) -> Seq<InformationView> {
    v.map_values(|i: Information| i@)
}

pub open spec fn free_communications_view(v: Seq<FreeCommunication>) -> Seq<FreeCommunicationView> {
    v.map_values(|f: FreeCommunication| f@)
}

pub open spec fn option_view<T: View>(o: Option<T>) -> Option<T::V> {
    match o {
        Some(v) => Some(v@),
        None => None,
    }
}

impl View for Coda {
    type V = CodaView;

    open spec fn view(&self) -> CodaView {
        CodaView {
            header: self.header@,
            old_balance: self.old_balance@,
            movements: movements_view(self.movements@),
            information: information_view(self.information@),
            free_communications: free_communications_view(self.free_communications@),
            new_balance: self.new_balance@,
            trailer: self.trailer,
        }
    }
}

/// The statement result `r` seen through the statement's view.
pub open spec fn coda_view(r: Result<Coda, CodaError>) -> Result<CodaView, CodaError> {
    match r {
        Ok(c) => Ok(c@),
        Err(e) => Err(e),
    }
}

/// A statement in the making: the records gathered so far.
pub struct Assembler {
    header: Option<Header>,
    old_balance: Option<OldBalance>,
    movements: Vec<Movement>,
    information: Vec<Information>,
    free_communications: Vec<FreeCommunication>,
    new_balance: Option<NewBalance>,
    trailer: Option<Trailer>,
}

impl View for Assembler {
    type V = Assembly;

    closed spec fn view(&self) -> Assembly {
        Assembly {
            header: option_view(self.header),
            old_balance: option_view(self.old_balance),
            movements: movements_view(self.movements@),
            information: information_view(self.information@),
            free_communications: free_communications_view(self.free_communications@),
            new_balance: option_view(self.new_balance),
            trailer: self.trailer,
        }
    }
}


fn decode_failure(n: usize, record: RecordKind, e: FieldError) -> (r: CodaError)
    ensures
        r == decode_error(n as int, record, e),
{
    CodaError::FieldDecode { line: n, record, field: e.field, cause: e.cause }
}

proof fn lemma_replace_last<T, V>(v: Seq<T>, x: T, f: spec_fn(T) -> V)
    requires
        v.len() > 0,
    ensures
        v.drop_last().push(x).map_values(f) =~= v.map_values(f).update(v.len() - 1, f(x)),
{
}

proof fn lemma_push<T, V>(v: Seq<T>, x: T, f: spec_fn(T) -> V)
    ensures
        v.push(x).map_values(f) =~= v.map_values(f).push(f(x)),
{
}

impl Assembler {
    /// An assembler that has seen no line yet.
    pub fn new() -> (r: Assembler)
        ensures
            r@ == empty_assembly(),
    {
        let r = Assembler {
            header: None,
            old_balance: None,
            movements: Vec::new(),
            information: Vec::new(),
            free_communications: Vec::new(),
            new_balance: None,
            trailer: None,
        };
        assert(r@.movements =~= Seq::<MovementView>::empty());
        assert(r@.information =~= Seq::<InformationView>::empty());
        assert(r@.free_communications =~= Seq::<FreeCommunicationView>::empty());
        r
    }

    /// Takes in line `line`, whose number in the statement is `number`.
    pub fn feed(&mut self, line: &str, number: usize) -> (r: Result<(), CodaError>)
        ensures
            match r {
                Ok(_) => step(old(self)@, line@, number as int) == Ok::<Assembly, CodaError>(
                    final(self)@,
                ),
                Err(e) => step(old(self)@, line@, number as int) == Err::<Assembly, CodaError>(e),
            },
    {
        let ghost before = self@;
        match classify(line) {
            LineKind::Header => match Header::parse(line) {
                Ok(h) => {
                    self.header = Some(h);
                    Ok(())
                },
                Err(e) => Err(decode_failure(number, RecordKind::Header, e)),
            },
            LineKind::OldBalance => match OldBalance::parse(line) {
                Ok(b) => {
                    self.old_balance = Some(b);
                    Ok(())
                },
                Err(e) => Err(decode_failure(number, RecordKind::OldBalance, e)),
            },
            LineKind::MovementType1 => match Movement::parse_type1(line) {
                Ok(m) => {
                    proof {
                        lemma_push(self.movements@, m, |m: Movement| m@);
                    }
                    self.movements.push(m);
                    Ok(())
                },
                Err(e) => Err(decode_failure(number, RecordKind::Movement, e)),
            },
            LineKind::MovementType2 | LineKind::MovementType3 => {
                let is_type2 = classify(line) == LineKind::MovementType2;
                let ghost old_movements = self.movements@;
                match self.movements.pop() {
                    None => Err(
                        CodaError::DanglingContinuation {
                            line: number,
                            record: RecordKind::Movement,
                        },
                    ),
                    Some(m) => {
                        let mut m = m;
                        assert(m@ == before.movements.last());
                        let res = if is_type2 {
                            m.parse_type2(line)
                        } else {
                            m.parse_type3(line)
                        };
                        match res {
                            Ok(_) => {
                                proof {
                                    lemma_replace_last(old_movements, m, |m: Movement| m@);
                                }
                                self.movements.push(m);
                                Ok(())
                            },
                            Err(e) => Err(decode_failure(number, RecordKind::Movement, e)),
                        }
                    },
                }
            },
            LineKind::InformationType1 => match Information::parse_type1(line) {
                Ok(i) => {
                    proof {
                        lemma_push(self.information@, i, |i: Information| i@);
                    }
                    self.information.push(i);
                    Ok(())
                },
                Err(e) => Err(decode_failure(number, RecordKind::Information, e)),
            },
            LineKind::InformationType2 | LineKind::InformationType3 => {
                let is_type2 = classify(line) == LineKind::InformationType2;
                let ghost old_information = self.information@;
                match self.information.pop() {
                    None => Err(
                        CodaError::DanglingContinuation {
                            line: number,
                            record: RecordKind::Information,
                        },
                    ),
                    Some(i) => {
                        let mut i = i;
                        assert(i@ == before.information.last());
                        let res = if is_type2 {
                            i.parse_type2(line)
                        } else {
                            i.parse_type3(line)
                        };
                        match res {
                            Ok(_) => {
                                proof {
                                    lemma_replace_last(old_information, i, |i: Information| i@);
                                }
                                self.information.push(i);
                                Ok(())
                            },
                            Err(e) => Err(decode_failure(number, RecordKind::Information, e)),
                        }
                    },
                }
            },
            LineKind::FreeCommunicationFirst => match FreeCommunication::parse_line1(line) {
                Ok(f) => {
                    proof {
                        lemma_push(self.free_communications@, f, |f: FreeCommunication| f@);
                    }
                    self.free_communications.push(f);
                    Ok(())
                },
                Err(e) => Err(decode_failure(number, RecordKind::FreeCommunication, e)),
            },
            LineKind::FreeCommunicationFollowing => {
                let ghost old_free = self.free_communications@;
                match self.free_communications.pop() {
                    None => Err(
                        CodaError::DanglingContinuation {
                            line: number,
                            record: RecordKind::FreeCommunication,
                        },
                    ),
                    Some(f) => {
                        let mut f = f;
                        assert(f@ == before.free_communications.last());
                        match f.parse_following(line) {
                            Ok(_) => {
                                proof {
                                    lemma_replace_last(old_free, f, |f: FreeCommunication| f@);
                                }
                                self.free_communications.push(f);
                                Ok(())
                            },
                            Err(e) => Err(decode_failure(number, RecordKind::FreeCommunication, e)),
                        }
                    },
                }
            },
            LineKind::NewBalance => match NewBalance::parse(line) {
                Ok(b) => {
                    self.new_balance = Some(b);
                    Ok(())
                },
                Err(e) => Err(decode_failure(number, RecordKind::NewBalance, e)),
            },
            LineKind::Trailer => match Trailer::parse(line) {
                Ok(t) => {
                    self.trailer = Some(t);
                    Ok(())
                },
                Err(e) => Err(decode_failure(number, RecordKind::Trailer, e)),
            },
            LineKind::Other => Ok(()),
        }
    }

    /// The statement gathered, if it holds every mandatory record.
    pub fn finish(self) -> (r: Result<Coda, CodaError>)
        ensures
            coda_view(r) == completed(self@),
    {
        let Assembler {
            header,
            old_balance,
            movements,
            information,
            free_communications,
            new_balance,
            trailer,
        } = self;
        let header = match header {
            Some(h) => h,
            None => {
                return Err(CodaError::IncompleteStatement { missing: RecordKind::Header });
            },
        };
        let old_balance = match old_balance {
            Some(b) => b,
            None => {
                return Err(CodaError::IncompleteStatement { missing: RecordKind::OldBalance });
            },
        };
        let new_balance = match new_balance {
            Some(b) => b,
            None => {
                return Err(CodaError::IncompleteStatement { missing: RecordKind::NewBalance });
            },
        };
        let trailer = match trailer {
            Some(t) => t,
            None => {
                return Err(CodaError::IncompleteStatement { missing: RecordKind::Trailer });
            },
        };
        Ok(
            Coda {
                header,
                old_balance,
                movements,
                information,
                free_communications,
                new_balance,
                trailer,
            },
        )
    }
}


/// The lines `v` seen as characters.
pub open spec fn lines_view(v: Seq<String>) -> Seq<Seq<char>> {
    v.map_values(|s: String| s@)
}

/// Once a pass over a prefix of the lines has failed, the pass over all of
/// them fails with the same error.
proof fn lemma_error_persists(ls: Seq<Seq<char>>, k: int)
    requires
        0 <= k <= ls.len(),
        assemble(ls.take(k)) is Err,
    ensures
        assemble(ls) == assemble(ls.take(k)),
    decreases ls.len(),
{
    if ls.len() == k {
        assert(ls.take(k) =~= ls);
    } else {
        assert(ls.drop_last().take(k) =~= ls.take(k));
        lemma_error_persists(ls.drop_last(), k);
    }
}

impl Coda {
    /// Decodes the statement that the lines `lines` make, in order.
    pub fn parse_lines(lines: &Vec<String>) -> (r: Result<Coda, CodaError>)
        ensures
            coda_view(r) == statement_of(lines_view(lines@)),
    {
        let ghost ls = lines_view(lines@);
        let mut assembler = Assembler::new();
        let mut i: usize = 0;
        assert(ls.take(0) =~= Seq::<Seq<char>>::empty());
        while i < lines.len()
            invariant
                ls == lines_view(lines@),
                i <= lines.len(),
                assemble(ls.take(i as int)) == Ok::<Assembly, CodaError>(assembler@),
            decreases lines.len() - i,
        {
            let ghost before = assembler@;
            assert(ls.take(i + 1).drop_last() =~= ls.take(i as int));
            assert(ls.take(i + 1).last() == lines@[i as int]@);
            match assembler.feed(lines[i].as_str(), i + 1) {
                Ok(_) => {},
                Err(e) => {
                    proof {
                        lemma_error_persists(ls, i + 1);
                    }
                    return Err(e);
                },
            }
            i = i + 1;
        }
        assert(ls.take(lines.len() as int) =~= ls);
        assembler.finish()
    }
}


impl Coda {
    /// Decodes the statement that `text` holds, one record per line.
    pub fn parse_text(text: &str) -> (r: Result<Coda, CodaError>)
        ensures
            coda_view(r) == statement_of(lines_of(text@)),
    {
        let lines = split_lines(text);
        Coda::parse_lines(&lines)
    }

    /// Decodes the statement that `bytes` hold, written in the encoding
    /// named `encoding_label`.
    pub fn parse(bytes: &[u8], encoding_label: &str) -> (r: Result<Coda, CodaError>)
        ensures
            !whatwg_label_known(encoding_label@) ==> r matches Err(CodaError::UnknownEncoding),
            whatwg_label_known(encoding_label@) ==> match strict_decoding(encoding_label@, bytes@) {
                Some(t) => coda_view(r) == statement_of(lines_of(t)),
                None => r matches Err(CodaError::Undecodable),
            },
    {
        let text = decode_text(bytes, encoding_label)?;
        Coda::parse_text(text.as_str())
    }
}


/// Line kind `k` opens a new entry of kind `r`.
pub open spec fn opens(k: LineKind, r: RecordKind) -> bool {
    (k == LineKind::MovementType1 && r == RecordKind::Movement) || (k == LineKind::InformationType1
        && r == RecordKind::Information) || (k == LineKind::FreeCommunicationFirst && r
        == RecordKind::FreeCommunication)
}

/// Line kind `k` continues the last entry of kind `r`.
pub open spec fn continues(k: LineKind, r: RecordKind) -> bool {
    ((k == LineKind::MovementType2 || k == LineKind::MovementType3) && r == RecordKind::Movement)
        || ((k == LineKind::InformationType2 || k == LineKind::InformationType3) && r
        == RecordKind::Information) || (k == LineKind::FreeCommunicationFollowing && r
        == RecordKind::FreeCommunication)
}

/// How many entries of kind `r` `a` holds.
pub open spec fn entry_count(a: Assembly, r: RecordKind) -> int {
    match r {
        RecordKind::Movement => a.movements.len() as int,
        RecordKind::Information => a.information.len() as int,
        RecordKind::FreeCommunication => a.free_communications.len() as int,
        _ => 0,
    }
}

/// Without a line that opens an entry of kind `r`, no such entry is gathered.
proof fn lemma_no_opener_no_entry(ls: Seq<Seq<char>>, r: RecordKind)
    requires
        assemble(ls) is Ok,
        forall|j: int| 0 <= j < ls.len() ==> !opens(#[trigger] kind_of(ls[j]), r),
    ensures
        entry_count(assemble(ls)->Ok_0, r) == 0,
    decreases ls.len(),
{
    if ls.len() > 0 {
        let prev = ls.drop_last();
        assert forall|j: int| 0 <= j < prev.len() implies !opens(#[trigger] kind_of(prev[j]), r) by {
            assert(prev[j] == ls[j]);
        }
        lemma_no_opener_no_entry(prev, r);
        assert(!opens(kind_of(ls[ls.len() - 1]), r));
    }
}

/// A continuation line with no line before it that opens an entry of its
/// kind is never skipped: the statement fails, and when every line before
/// it decodes, it fails with a dangling-continuation error for that line.
pub proof fn lemma_dangling_continuation(ls: Seq<Seq<char>>, i: int, r: RecordKind)
    requires
        0 <= i < ls.len(),
        continues(kind_of(ls[i]), r),
        forall|j: int| 0 <= j < i ==> !opens(#[trigger] kind_of(ls[j]), r),
    ensures
        statement_of(ls) is Err,
        assemble(ls.take(i)) is Ok ==> statement_of(ls) == Err::<CodaView, CodaError>(
            CodaError::DanglingContinuation { line: (i + 1) as usize, record: r },
        ),
{
    let prefix = ls.take(i);
    assert(ls.take(i + 1).drop_last() =~= prefix);
    assert(ls.take(i + 1).last() == ls[i]);
    if assemble(prefix) is Ok {
        assert forall|j: int| 0 <= j < prefix.len() implies !opens(
            #[trigger] kind_of(prefix[j]),
            r,
        ) by {
            assert(prefix[j] == ls[j]);
        }
        lemma_no_opener_no_entry(prefix, r);
        assert(assemble(ls.take(i + 1)) == Err::<Assembly, CodaError>(
            CodaError::DanglingContinuation { line: (i + 1) as usize, record: r },
        ));
        lemma_error_persists(ls, i + 1);
    } else {
        lemma_error_persists(ls, i);
    }
}

/// The kinds of line that carry a mandatory record.
pub open spec fn is_mandatory(k: LineKind) -> bool {
    k == LineKind::Header || k == LineKind::OldBalance || k == LineKind::NewBalance || k
        == LineKind::Trailer
}

/// Whether `a` holds the mandatory record that lines of kind `k` carry.
pub open spec fn holds_record(a: Assembly, k: LineKind) -> bool {
    if k == LineKind::Header {
        a.header is Some
    } else if k == LineKind::OldBalance {
        a.old_balance is Some
    } else if k == LineKind::NewBalance {
        a.new_balance is Some
    } else {
        a.trailer is Some
    }
}

proof fn lemma_absent_record(ls: Seq<Seq<char>>, k: LineKind)
    requires
        is_mandatory(k),
        assemble(ls) is Ok,
        forall|j: int| 0 <= j < ls.len() ==> #[trigger] kind_of(ls[j]) != k,
    ensures
        !holds_record(assemble(ls)->Ok_0, k),
    decreases ls.len(),
{
    if ls.len() > 0 {
        let prev = ls.drop_last();
        assert forall|j: int| 0 <= j < prev.len() implies #[trigger] kind_of(prev[j]) != k by {
            assert(prev[j] == ls[j]);
        }
        lemma_absent_record(prev, k);
        assert(kind_of(ls[ls.len() - 1]) != k);
    }
}

/// A statement with no line of some mandatory kind (header, old balance,
/// new balance, trailer) always fails, and when every line decodes it fails
/// as incomplete.
pub proof fn lemma_incomplete_statement(ls: Seq<Seq<char>>, k: LineKind)
    requires
        is_mandatory(k),
        forall|j: int| 0 <= j < ls.len() ==> #[trigger] kind_of(ls[j]) != k,
    ensures
        statement_of(ls) is Err,
        assemble(ls) is Ok ==> statement_of(ls) matches Err(CodaError::IncompleteStatement { .. }),
{
    if assemble(ls) is Ok {
        lemma_absent_record(ls, k);
    }
}


/// `a` after line `l1`, numbered `n`, and then line `l2`.
pub open spec fn step_twice(a: Assembly, l1: Seq<char>, l2: Seq<char>, n: int) -> Result<
    Assembly,
    CodaError,
> {
    match step(a, l1, n) {
        Ok(b) => step(b, l2, n + 1),
        Err(e) => Err(e),
    }
}

/// A movement's opening line followed by one of its continuation lines
/// decodes to the same movement wherever the pair is fed, and as often as
/// it is fed: the movement is the opening line's, extended by the
/// continuation line.
pub proof fn lemma_movement_redecoded(a: Assembly, b: Assembly, l1: Seq<char>, l2: Seq<char>, n: int, m: int)
    requires
        kind_of(l1) == LineKind::MovementType1,
        kind_of(l2) == LineKind::MovementType2 || kind_of(l2) == LineKind::MovementType3,
        step_twice(a, l1, l2, n) is Ok,
    ensures
        step_twice(b, l1, l2, m) is Ok,
        step_twice(a, l1, l2, n)->Ok_0.movements.last() == step_twice(b, l1, l2, m)->Ok_0.movements.last(),
        step_twice(a, l1, l2, n)->Ok_0.movements.last() == (if kind_of(l2) == LineKind::MovementType2 {
            movement_type2(movement_of(l1)->Ok_0, l2)->Ok_0
        } else {
            movement_type3(movement_of(l1)->Ok_0, l2)->Ok_0
        }),
{
}

/// The same for an information record and one of its continuation lines.
pub proof fn lemma_information_redecoded(a: Assembly, b: Assembly, l1: Seq<char>, l2: Seq<char>, n: int, m: int)
    requires
        kind_of(l1) == LineKind::InformationType1,
        kind_of(l2) == LineKind::InformationType2 || kind_of(l2) == LineKind::InformationType3,
        step_twice(a, l1, l2, n) is Ok,
    ensures
        step_twice(b, l1, l2, m) is Ok,
        step_twice(a, l1, l2, n)->Ok_0.information.last() == step_twice(b, l1, l2, m)->Ok_0.information.last(),
        step_twice(a, l1, l2, n)->Ok_0.information.last() == (if kind_of(l2) == LineKind::InformationType2 {
            information_type2(information_of(l1)->Ok_0, l2)->Ok_0
        } else {
            information_type3(information_of(l1)->Ok_0, l2)->Ok_0
        }),
{
}

/// The same for a free communication and one of its following lines.
pub proof fn lemma_free_communication_redecoded(
    a: Assembly,
    b: Assembly,
    l1: Seq<char>,
    l2: Seq<char>,
    n: int,
    m: int,
)
    requires
        kind_of(l1) == LineKind::FreeCommunicationFirst,
        kind_of(l2) == LineKind::FreeCommunicationFollowing,
        step_twice(a, l1, l2, n) is Ok,
    ensures
        step_twice(b, l1, l2, m) is Ok,
        step_twice(a, l1, l2, n)->Ok_0.free_communications.last() == step_twice(b, l1, l2, m)->Ok_0.free_communications.last(),
        step_twice(a, l1, l2, n)->Ok_0.free_communications.last() == free_communication_following(
            free_communication_of(l1)->Ok_0,
            l2,
        )->Ok_0,
{
}

} // verus!
