//! The records of a statement, one kind per leading discriminator, and the
//! decoders that slice each one out of a line at its fixed offsets.

use vstd::prelude::*;

use crate::calendar::{date_of, parse_date, Date};
use crate::field::{
    all_digits, lemma_digits_value_nonneg, digit_value, digits_value, duplicate_of, is_digit, parse_duplicate, parse_field, parse_sign, parse_str, parse_str_append, parse_str_trim, parse_u32, parse_u64,
    parse_u8, sign_of, signed_value, code_error, trim_end, u32_of, u64_of, u8_of, Sign, ValueError,
};

verus! {

/// The name of a field of a record.
#[derive(PartialEq, Eq, Structural, Clone, Copy, Debug)]
pub enum Field {
    CreationDate,
    BankId,
    Duplicate,
    FileReference,
    NameAddressee,
    Bic,
    CompanyId,
    Reference,
    RelatedReference,
    Version,
    Account,
    OldSequence,
    OldBalanceSign,
    OldBalance,
    OldBalanceDate,
    AccountHolderName,
    AccountDescription,
    CodaSequence,
    Sequence,
    DetailSequence,
    BankReference,
    Amount,
    ValueDate,
    TransactionCode,
    Communication,
    EntryDate,
    StatementNumber,
    CustomerReference,
    CounterpartyBic,
    RTransaction,
    RReason,
    CategoryPurpose,
    Purpose,
    CounterpartyName,
    CounterpartyAccount,
    CommunicationStructure,
    Text,
    NewSequence,
    NewBalanceSign,
    NewBalance,
    NewBalanceDate,
    NumberRecords,
    TotalDebit,
    TotalCredit,
}

/// A field whose text could not be converted, and why.
#[derive(PartialEq, Eq, Structural, Clone, Copy, Debug)]
pub struct FieldError {
    pub field: Field,
    pub cause: ValueError,
}

/// `r` with its error tagged by the field it comes from.
pub open spec fn tag<T>(r: Result<T, ValueError>, field: Field) -> Result<T, FieldError> {
    match r {
        Ok(v) => Ok(v),
        Err(cause) => Err(FieldError { field, cause }),
    }
}

/// The characters `a..b` of line `l`, converted by `f`; `Missing` where the
/// range reaches past the end of the line.
pub open spec fn decode_at<T>(
    l: Seq<char>,
    a: int,
    b: int,
    f: spec_fn(Seq<char>) -> Result<T, ValueError>,
) -> Result<T, ValueError> {
    if b <= l.len() {
        f(l.subrange(a, b))
    } else {
        Err(ValueError::Missing)
    }
}

/// The characters `a..b` of `l` as they stand.
pub open spec fn text_at(l: Seq<char>, a: int, b: int) -> Result<Seq<char>, ValueError> {
    decode_at(l, a, b, |s: Seq<char>| Ok(s))
}

/// The characters `a..b` of `l` without trailing spaces.
pub open spec fn trimmed_at(l: Seq<char>, a: int, b: int) -> Result<Seq<char>, ValueError> {
    decode_at(l, a, b, |s: Seq<char>| Ok(trim_end(s)))
}

/// A line break and the characters `a..b` of `l` without trailing spaces.
pub open spec fn appended_at(l: Seq<char>, a: int, b: int) -> Result<Seq<char>, ValueError> {
    decode_at(l, a, b, |s: Seq<char>| Ok(seq!['\n'] + trim_end(s)))
}

/// The text result `r` with its string seen as characters.
pub open spec fn text_view(r: Result<String, FieldError>) -> Result<Seq<char>, FieldError> {
    match r {
        Ok(v) => Ok(v@),
        Err(e) => Err(e),
    }
}

/// The optional text `o` seen as characters.
pub open spec fn opt_view(o: Option<String>) -> Option<Seq<char>> {
    match o {
        Some(v) => Some(v@),
        None => None,
    }
}

/// The result `r` with its value seen through its view.
pub open spec fn view_result<T: View>(r: Result<T, FieldError>) -> Result<T::V, FieldError> {
    match r {
        Ok(v) => Ok(v@),
        Err(e) => Err(e),
    }
}

fn text_field(line: &str, a: usize, b: usize, field: Field) -> (r: Result<String, FieldError>)
    requires
        a <= b,
    ensures
        text_view(r) == tag(text_at(line@, a as int, b as int), field),
{
    match parse_field(line, a..b, parse_str) {
        Ok(v) => Ok(v),
        Err(cause) => Err(FieldError { field, cause }),
    }
}

fn trimmed_field(line: &str, a: usize, b: usize, field: Field) -> (r: Result<String, FieldError>)
    requires
        a <= b,
    ensures
        text_view(r) == tag(trimmed_at(line@, a as int, b as int), field),
{
    match parse_field(line, a..b, parse_str_trim) {
        Ok(v) => Ok(v),
        Err(cause) => Err(FieldError { field, cause }),
    }
}

fn appended_field(line: &str, a: usize, b: usize, field: Field) -> (r: Result<String, FieldError>)
    requires
        a <= b,
    ensures
        text_view(r) == tag(appended_at(line@, a as int, b as int), field),
{
    match parse_field(line, a..b, parse_str_append) {
        Ok(v) => Ok(v),
        Err(cause) => Err(FieldError { field, cause }),
    }
}

fn u8_field(line: &str, a: usize, b: usize, field: Field) -> (r: Result<u8, FieldError>)
    requires
        a <= b,
    ensures
        r == tag(decode_at(line@, a as int, b as int, |s| u8_of(s)), field),
{
    match parse_field(line, a..b, parse_u8) {
        Ok(v) => Ok(v),
        Err(cause) => Err(FieldError { field, cause }),
    }
}

fn u32_field(line: &str, a: usize, b: usize, field: Field) -> (r: Result<u32, FieldError>)
    requires
        a <= b,
    ensures
        r == tag(decode_at(line@, a as int, b as int, |s| u32_of(s)), field),
{
    match parse_field(line, a..b, parse_u32) {
        Ok(v) => Ok(v),
        Err(cause) => Err(FieldError { field, cause }),
    }
}

fn u64_field(line: &str, a: usize, b: usize, field: Field) -> (r: Result<u64, FieldError>)
    requires
        a <= b,
    ensures
        r == tag(decode_at(line@, a as int, b as int, |s| u64_of(s)), field),
{
    match parse_field(line, a..b, parse_u64) {
        Ok(v) => Ok(v),
        Err(cause) => Err(FieldError { field, cause }),
    }
}

fn date_field(line: &str, a: usize, b: usize, field: Field) -> (r: Result<Date, FieldError>)
    requires
        a <= b,
    ensures
        r == tag(decode_at(line@, a as int, b as int, |s| date_of(s)), field),
{
    match parse_field(line, a..b, parse_date) {
        Ok(v) => Ok(v),
        Err(cause) => Err(FieldError { field, cause }),
    }
}

fn sign_field(line: &str, a: usize, b: usize, field: Field) -> (r: Result<Sign, FieldError>)
    requires
        a <= b,
    ensures
        r == tag(decode_at(line@, a as int, b as int, |s| sign_of(s)), field),
{
    match parse_field(line, a..b, parse_sign) {
        Ok(v) => Ok(v),
        Err(cause) => Err(FieldError { field, cause }),
    }
}

/// The closing record of a statement: how many records it holds, and the
/// totals of its debits and credits in minor units.
#[derive(PartialEq, Eq, Structural, Clone, Copy, Debug)]
pub struct Trailer {
    pub number_records: u32,
    pub total_debit: u64,
    pub total_credit: u64,
}

/// The trailer that line `l` holds.
pub open spec fn trailer_of(l: Seq<char>) -> Result<Trailer, FieldError> {
    let number_records = tag(decode_at(l, 16, 22, |s| u32_of(s)), Field::NumberRecords);
    let total_debit = tag(decode_at(l, 22, 37, |s| u64_of(s)), Field::TotalDebit);
    let total_credit = tag(decode_at(l, 37, 52, |s| u64_of(s)), Field::TotalCredit);
    if number_records is Err {
        Err(number_records->Err_0)
    } else if total_debit is Err {
        Err(total_debit->Err_0)
    } else if total_credit is Err {
        Err(total_credit->Err_0)
    } else {
        Ok(
            Trailer {
                number_records: number_records->Ok_0,
                total_debit: total_debit->Ok_0,
                total_credit: total_credit->Ok_0,
            },
        )
    }
}

impl Trailer {
    /// Decodes a trailer line (one that starts with `9`).
    pub fn parse(line: &str) -> (r: Result<Trailer, FieldError>)
        ensures
            r == trailer_of(line@),
    {
        let number_records = u32_field(line, 16, 22, Field::NumberRecords)?;
        let total_debit = u64_field(line, 22, 37, Field::TotalDebit)?;
        let total_credit = u64_field(line, 37, 52, Field::TotalCredit)?;
        Ok(Trailer { number_records, total_debit, total_credit })
    }
}


/// The closing balance of the account.
#[derive(PartialEq, Eq, Debug)]
pub struct NewBalance {
    pub new_sequence: String,
    pub new_balance_sign: Sign,
    pub new_balance: u64,
    pub new_balance_date: Date,
}

/// A [`NewBalance`] with its text seen as sequences of characters.
pub struct NewBalanceView {
    pub new_sequence: Seq<char>,
    pub new_balance_sign: Sign,
    pub new_balance: u64,
    pub new_balance_date: Date,
}

impl View for NewBalance {
    type V = NewBalanceView;

    open spec fn view(&self) -> NewBalanceView {
        NewBalanceView {
            new_sequence: self.new_sequence@,
            new_balance_sign: self.new_balance_sign,
            new_balance: self.new_balance,
            new_balance_date: self.new_balance_date,
        }
    }
}

/// The closing balance that line `l` holds.
pub open spec fn new_balance_of(l: Seq<char>) -> Result<NewBalanceView, FieldError> {
    let new_sequence = tag(text_at(l, 1, 4), Field::NewSequence);
    let sign = tag(decode_at(l, 42, 43, |s| sign_of(s)), Field::NewBalanceSign);
    let amount = tag(decode_at(l, 41, 57, |s| u64_of(s)), Field::NewBalance);
    let date = tag(decode_at(l, 57, 63, |s| date_of(s)), Field::NewBalanceDate);
    if new_sequence is Err {
        Err(new_sequence->Err_0)
    } else if sign is Err {
        Err(sign->Err_0)
    } else if amount is Err {
        Err(amount->Err_0)
    } else if date is Err {
        Err(date->Err_0)
    } else {
        Ok(
            NewBalanceView {
                new_sequence: new_sequence->Ok_0,
                new_balance_sign: sign->Ok_0,
                new_balance: amount->Ok_0,
                new_balance_date: date->Ok_0,
            },
        )
    }
}

impl NewBalance {
    /// Decodes a new-balance line (one that starts with `8`).
    pub fn parse(line: &str) -> (r: Result<NewBalance, FieldError>)
        ensures
            view_result(r) == new_balance_of(line@),
    {
        let new_sequence = text_field(line, 1, 4, Field::NewSequence)?;
        let new_balance_sign = sign_field(line, 42, 43, Field::NewBalanceSign)?;
        let new_balance = u64_field(line, 41, 57, Field::NewBalance)?;
        let new_balance_date = date_field(line, 57, 63, Field::NewBalanceDate)?;
        Ok(NewBalance { new_sequence, new_balance_sign, new_balance, new_balance_date })
    }

    /// The closing balance in minor units, with its sign applied.
    pub fn signed_new_balance(&self) -> (r: i128)
        ensures
            r == signed_value(self.new_balance_sign, self.new_balance as int),
    {
        self.new_balance_sign.signed(self.new_balance)
    }
}

/// A free-text message of the bank, possibly spread over several lines.
#[derive(PartialEq, Eq, Debug)]
pub struct FreeCommunication {
    pub sequence: String,
    pub detail_sequence: String,
    pub text: String,
}

/// A [`FreeCommunication`] with its text seen as sequences of characters.
pub struct FreeCommunicationView {
    pub sequence: Seq<char>,
    pub detail_sequence: Seq<char>,
    pub text: Seq<char>,
}

impl View for FreeCommunication {
    type V = FreeCommunicationView;

    open spec fn view(&self) -> FreeCommunicationView {
        FreeCommunicationView {
            sequence: self.sequence@,
            detail_sequence: self.detail_sequence@,
            text: self.text@,
        }
    }
}

/// The free communication that its first line `l` opens.
pub open spec fn free_communication_of(l: Seq<char>) -> Result<FreeCommunicationView, FieldError> {
    let sequence = tag(text_at(l, 2, 6), Field::Sequence);
    let detail_sequence = tag(text_at(l, 6, 10), Field::DetailSequence);
    let text = tag(trimmed_at(l, 32, 112), Field::Text);
    if sequence is Err {
        Err(sequence->Err_0)
    } else if detail_sequence is Err {
        Err(detail_sequence->Err_0)
    } else if text is Err {
        Err(text->Err_0)
    } else {
        Ok(
            FreeCommunicationView {
                sequence: sequence->Ok_0,
                detail_sequence: detail_sequence->Ok_0,
                text: text->Ok_0,
            },
        )
    }
}

/// `f` once a following line `l` has added its text.
pub open spec fn free_communication_following(
    f: FreeCommunicationView,
    l: Seq<char>,
) -> Result<FreeCommunicationView, FieldError> {
    let piece = tag(appended_at(l, 32, 112), Field::Text);
    if piece is Err {
        Err(piece->Err_0)
    } else {
        Ok(
            FreeCommunicationView {
                sequence: f.sequence,
                detail_sequence: f.detail_sequence,
                text: f.text + piece->Ok_0,
            },
        )
    }
}

impl FreeCommunication {
    /// Decodes the first line of a free communication.
    pub fn parse_line1(line: &str) -> (r: Result<FreeCommunication, FieldError>)
        ensures
            view_result(r) == free_communication_of(line@),
    {
        let sequence = text_field(line, 2, 6, Field::Sequence)?;
        let detail_sequence = text_field(line, 6, 10, Field::DetailSequence)?;
        let text = trimmed_field(line, 32, 112, Field::Text)?;
        Ok(FreeCommunication { sequence, detail_sequence, text })
    }

    /// Adds the text of a following line, after a line break.
    pub fn parse_following(&mut self, line: &str) -> (r: Result<(), FieldError>)
        ensures
            match r {
                Ok(_) => free_communication_following(old(self)@, line@) == Ok::<
                    FreeCommunicationView,
                    FieldError,
                >(final(self)@),
                Err(e) => free_communication_following(old(self)@, line@) == Err::<
                    FreeCommunicationView,
                    FieldError,
                >(e) && *final(self) == *old(self),
            },
    {
        let piece = appended_field(line, 32, 112, Field::Text)?;
        self.text.append(piece.as_str());
        Ok(())
    }
}

/// Whether the communication of an information record follows a structured scheme.
#[derive(PartialEq, Eq, Structural, Clone, Copy, Debug)]
pub enum CommunicationStructure {
    Structured,
    Unstructured,
}

/// `'0'` is unstructured, `'1'` structured.
pub open spec fn structure_of(s: Seq<char>) -> Result<CommunicationStructure, ValueError> {
    if s == seq!['0'] {
        Ok(CommunicationStructure::Unstructured)
    } else if s == seq!['1'] {
        Ok(CommunicationStructure::Structured)
    } else {
        Err(code_error(s))
    }
}

/// Decodes the communication-structure flag: `"0"` unstructured, `"1"` structured.
pub fn parse_communicationstructure(s: &str) -> (r: Result<CommunicationStructure, ValueError>)
    ensures
        r == structure_of(s@),
{
    if s.unicode_len() == 1 {
        let c = s.get_char(0);
        if c == '0' {
            assert(s@ =~= seq!['0']);
            return Ok(CommunicationStructure::Unstructured);
        } else if c == '1' {
            assert(s@ =~= seq!['1']);
            return Ok(CommunicationStructure::Structured);
        }
    }
    if s.unicode_len() == 0 {
        Err(ValueError::Missing)
    } else {
        Err(ValueError::InvalidCode(s.get_char(0)))
    }
}

/// Further information on a movement, possibly spread over several lines.
#[derive(PartialEq, Eq, Debug)]
pub struct Information {
    pub sequence: String,
    pub detail_sequence: String,
    pub bank_reference: String,
    pub transaction_code: String,
    pub communication_structure: CommunicationStructure,
    pub communication: String,
}

/// A [`Information`] with its text seen as sequences of characters.
pub struct InformationView {
    pub sequence: Seq<char>,
    pub detail_sequence: Seq<char>,
    pub bank_reference: Seq<char>,
    pub transaction_code: Seq<char>,
    pub communication_structure: CommunicationStructure,
    pub communication: Seq<char>,
}

impl View for Information {
    type V = InformationView;

    open spec fn view(&self) -> InformationView {
        InformationView {
            sequence: self.sequence@,
            detail_sequence: self.detail_sequence@,
            bank_reference: self.bank_reference@,
            transaction_code: self.transaction_code@,
            communication_structure: self.communication_structure,
            communication: self.communication@,
        }
    }
}

/// The information record that its first line `l` opens.
pub open spec fn information_of(l: Seq<char>) -> Result<InformationView, FieldError> {
    let sequence = tag(text_at(l, 2, 6), Field::Sequence);
    let detail_sequence = tag(text_at(l, 6, 10), Field::DetailSequence);
    let bank_reference = tag(text_at(l, 10, 31), Field::BankReference);
    let transaction_code = tag(text_at(l, 31, 39), Field::TransactionCode);
    let structure = tag(decode_at(l, 39, 40, |s| structure_of(s)), Field::CommunicationStructure);
    let communication = tag(trimmed_at(l, 40, 113), Field::Communication);
    if sequence is Err {
        Err(sequence->Err_0)
    } else if detail_sequence is Err {
        Err(detail_sequence->Err_0)
    } else if bank_reference is Err {
        Err(bank_reference->Err_0)
    } else if transaction_code is Err {
        Err(transaction_code->Err_0)
    } else if structure is Err {
        Err(structure->Err_0)
    } else if communication is Err {
        Err(communication->Err_0)
    } else {
        Ok(
            InformationView {
                sequence: sequence->Ok_0,
                detail_sequence: detail_sequence->Ok_0,
                bank_reference: bank_reference->Ok_0,
                transaction_code: transaction_code->Ok_0,
                communication_structure: structure->Ok_0,
                communication: communication->Ok_0,
            },
        )
    }
}

/// `i` once a continuation line `l` has added the characters `a..b` to its
/// communication.
pub open spec fn information_continued(
    i: InformationView,
    l: Seq<char>,
    a: int,
    b: int,
) -> Result<InformationView, FieldError> {
    let piece = tag(appended_at(l, a, b), Field::Communication);
    if piece is Err {
        Err(piece->Err_0)
    } else {
        Ok(
            InformationView {
                sequence: i.sequence,
                detail_sequence: i.detail_sequence,
                bank_reference: i.bank_reference,
                transaction_code: i.transaction_code,
                communication_structure: i.communication_structure,
                communication: i.communication + piece->Ok_0,
            },
        )
    }
}

/// `i` once a type-2 line `l` has continued it.
pub open spec fn information_type2(i: InformationView, l: Seq<char>) -> Result<InformationView, FieldError> {
    information_continued(i, l, 10, 115)
}

/// `i` once a type-3 line `l` has continued it.
pub open spec fn information_type3(i: InformationView, l: Seq<char>) -> Result<InformationView, FieldError> {
    information_continued(i, l, 10, 100)
}

impl Information {
    /// Decodes the first line (type 1) of an information record.
    pub fn parse_type1(line: &str) -> (r: Result<Information, FieldError>)
        ensures
            view_result(r) == information_of(line@),
    {
        let sequence = text_field(line, 2, 6, Field::Sequence)?;
        let detail_sequence = text_field(line, 6, 10, Field::DetailSequence)?;
        let bank_reference = text_field(line, 10, 31, Field::BankReference)?;
        let transaction_code = text_field(line, 31, 39, Field::TransactionCode)?;
        let communication_structure = match parse_field(line, 39..40, parse_communicationstructure) {
            Ok(v) => v,
            Err(cause) => {
                return Err(FieldError { field: Field::CommunicationStructure, cause });
            },
        };
        let communication = trimmed_field(line, 40, 113, Field::Communication)?;
        Ok(
            Information {
                sequence,
                detail_sequence,
                bank_reference,
                transaction_code,
                communication_structure,
                communication,
            },
        )
    }

    /// Adds the communication of a type-2 line, after a line break.
    pub fn parse_type2(&mut self, line: &str) -> (r: Result<(), FieldError>)
        ensures
            match r {
                Ok(_) => information_type2(old(self)@, line@) == Ok::<InformationView, FieldError>(
                    final(self)@,
                ),
                Err(e) => information_type2(old(self)@, line@) == Err::<InformationView, FieldError>(
                    e,
                ) && *final(self) == *old(self),
            },
    {
        let piece = appended_field(line, 10, 115, Field::Communication)?;
        self.communication.append(piece.as_str());
        Ok(())
    }

    /// Adds the communication of a type-3 line, after a line break.
    pub fn parse_type3(&mut self, line: &str) -> (r: Result<(), FieldError>)
        ensures
            match r {
                Ok(_) => information_type3(old(self)@, line@) == Ok::<InformationView, FieldError>(
                    final(self)@,
                ),
                Err(e) => information_type3(old(self)@, line@) == Err::<InformationView, FieldError>(
                    e,
                ) && *final(self) == *old(self),
            },
    {
        let piece = appended_field(line, 10, 100, Field::Communication)?;
        self.communication.append(piece.as_str());
        Ok(())
    }
}


/// An account number in one of its four shapes, with its currency.
#[derive(PartialEq, Eq, Debug)]
pub enum Account {
    BelgianAccountNumber { number: String, currency: String, country: String },
    ForeignAccountNumber { number: String, currency: String },
    IBANBelgianAccountNumber { number: String, currency: String },
    IBANForeignAccountNumber { number: String, currency: String },
}

/// An [`Account`] with its text seen as sequences of characters.
pub enum AccountView {
    BelgianAccountNumber { number: Seq<char>, currency: Seq<char>, country: Seq<char> },
    ForeignAccountNumber { number: Seq<char>, currency: Seq<char> },
    IBANBelgianAccountNumber { number: Seq<char>, currency: Seq<char> },
    IBANForeignAccountNumber { number: Seq<char>, currency: Seq<char> },
}

impl View for Account {
    type V = AccountView;

    open spec fn view(&self) -> AccountView {
        match self {
            Account::BelgianAccountNumber { number, currency, country } => {
                AccountView::BelgianAccountNumber {
                    number: number@,
                    currency: currency@,
                    country: country@,
                }
            },
            Account::ForeignAccountNumber { number, currency } => {
                AccountView::ForeignAccountNumber { number: number@, currency: currency@ }
            },
            Account::IBANBelgianAccountNumber { number, currency } => {
                AccountView::IBANBelgianAccountNumber { number: number@, currency: currency@ }
            },
            Account::IBANForeignAccountNumber { number, currency } => {
                AccountView::IBANForeignAccountNumber { number: number@, currency: currency@ }
            },
        }
    }
}

/// The account that the 41-character account zone `s` describes: its first
/// character names the shape, which fixes where number and currency stand.
pub open spec fn account_of(s: Seq<char>) -> Result<AccountView, ValueError> {
    if s.len() == 0 {
        Err(ValueError::Missing)
    } else if s[0] == '0' {
        if s.len() < 23 {
            Err(ValueError::Missing)
        } else {
            Ok(
                AccountView::BelgianAccountNumber {
                    number: trim_end(s.subrange(4, 16)),
                    currency: s.subrange(17, 20),
                    country: s.subrange(21, 23),
                },
            )
        }
    } else if s[0] == '1' || s[0] == '2' || s[0] == '3' {
        if s.len() < 41 {
            Err(ValueError::Missing)
        } else if s[0] == '1' {
            Ok(
                AccountView::ForeignAccountNumber {
                    number: trim_end(s.subrange(4, 38)),
                    currency: s.subrange(38, 41),
                },
            )
        } else if s[0] == '2' {
            Ok(
                AccountView::IBANBelgianAccountNumber {
                    number: trim_end(s.subrange(4, 35)),
                    currency: s.subrange(38, 41),
                },
            )
        } else {
            Ok(
                AccountView::IBANForeignAccountNumber {
                    number: trim_end(s.subrange(4, 38)),
                    currency: s.subrange(38, 41),
                },
            )
        }
    } else {
        Err(ValueError::InvalidCode(s[0]))
    }
}

/// The account result `r` seen through the account's view.
pub open spec fn account_view(r: Result<Account, ValueError>) -> Result<AccountView, ValueError> {
    match r {
        Ok(a) => Ok(a@),
        Err(e) => Err(e),
    }
}

/// Decodes the account zone of a balance line.
pub fn parse_account(s: &str) -> (r: Result<Account, ValueError>)
    ensures
        account_view(r) == account_of(s@),
{
    if s.unicode_len() == 0 {
        return Err(ValueError::Missing);
    }
    let shape = s.get_char(0);
    if shape == '0' {
        let number = parse_field(s, 4..16, parse_str_trim)?;
        let currency = parse_field(s, 17..20, parse_str)?;
        let country = parse_field(s, 21..23, parse_str)?;
        Ok(Account::BelgianAccountNumber { number, currency, country })
    } else if shape == '1' {
        let number = parse_field(s, 4..38, parse_str_trim)?;
        let currency = parse_field(s, 38..41, parse_str)?;
        Ok(Account::ForeignAccountNumber { number, currency })
    } else if shape == '2' {
        let number = parse_field(s, 4..35, parse_str_trim)?;
        let currency = parse_field(s, 38..41, parse_str)?;
        Ok(Account::IBANBelgianAccountNumber { number, currency })
    } else if shape == '3' {
        let number = parse_field(s, 4..38, parse_str_trim)?;
        let currency = parse_field(s, 38..41, parse_str)?;
        Ok(Account::IBANForeignAccountNumber { number, currency })
    } else {
        Err(ValueError::InvalidCode(shape))
    }
}

/// The opening balance of the account, with the account itself.
#[derive(PartialEq, Eq, Debug)]
pub struct OldBalance {
    pub account: Account,
    pub old_sequence: String,
    pub old_balance_sign: Sign,
    pub old_balance: u64,
    pub old_balance_date: Date,
    pub account_holder_name: String,
    pub account_description: String,
    pub coda_sequence: String,
}

/// A [`OldBalance`] with its text seen as sequences of characters.
pub struct OldBalanceView {
    pub account: AccountView,
    pub old_sequence: Seq<char>,
    pub old_balance_sign: Sign,
    pub old_balance: u64,
    pub old_balance_date: Date,
    pub account_holder_name: Seq<char>,
    pub account_description: Seq<char>,
    pub coda_sequence: Seq<char>,
}

impl View for OldBalance {
    type V = OldBalanceView;

    open spec fn view(&self) -> OldBalanceView {
        OldBalanceView {
            account: self.account@,
            old_sequence: self.old_sequence@,
            old_balance_sign: self.old_balance_sign,
            old_balance: self.old_balance,
            old_balance_date: self.old_balance_date,
            account_holder_name: self.account_holder_name@,
            account_description: self.account_description@,
            coda_sequence: self.coda_sequence@,
        }
    }
}

/// The opening balance that line `l` holds.
pub open spec fn old_balance_of(l: Seq<char>) -> Result<OldBalanceView, FieldError> {
    let account = tag(decode_at(l, 1, 42, |s| account_of(s)), Field::Account);
    let old_sequence = tag(text_at(l, 2, 5), Field::OldSequence);
    let sign = tag(decode_at(l, 42, 43, |s| sign_of(s)), Field::OldBalanceSign);
    let amount = tag(decode_at(l, 43, 58, |s| u64_of(s)), Field::OldBalance);
    let date = tag(decode_at(l, 58, 64, |s| date_of(s)), Field::OldBalanceDate);
    let holder = tag(trimmed_at(l, 64, 90), Field::AccountHolderName);
    let description = tag(trimmed_at(l, 90, 125), Field::AccountDescription);
    let coda_sequence = tag(text_at(l, 125, 128), Field::CodaSequence);
    if account is Err {
        Err(account->Err_0)
    } else if old_sequence is Err {
        Err(old_sequence->Err_0)
    } else if sign is Err {
        Err(sign->Err_0)
    } else if amount is Err {
        Err(amount->Err_0)
    } else if date is Err {
        Err(date->Err_0)
    } else if holder is Err {
        Err(holder->Err_0)
    } else if description is Err {
        Err(description->Err_0)
    } else if coda_sequence is Err {
        Err(coda_sequence->Err_0)
    } else {
        Ok(
            OldBalanceView {
                account: account->Ok_0,
                old_sequence: old_sequence->Ok_0,
                old_balance_sign: sign->Ok_0,
                old_balance: amount->Ok_0,
                old_balance_date: date->Ok_0,
                account_holder_name: holder->Ok_0,
                account_description: description->Ok_0,
                coda_sequence: coda_sequence->Ok_0,
            },
        )
    }
}

impl OldBalance {
    /// Decodes an old-balance line (one that starts with `1`).
    pub fn parse(line: &str) -> (r: Result<OldBalance, FieldError>)
        ensures
            view_result(r) == old_balance_of(line@),
    {
        let account = match parse_field(line, 1..42, parse_account) {
            Ok(v) => v,
            Err(cause) => {
                return Err(FieldError { field: Field::Account, cause });
            },
        };
        let old_sequence = text_field(line, 2, 5, Field::OldSequence)?;
        let old_balance_sign = sign_field(line, 42, 43, Field::OldBalanceSign)?;
        let old_balance = u64_field(line, 43, 58, Field::OldBalance)?;
        let old_balance_date = date_field(line, 58, 64, Field::OldBalanceDate)?;
        let account_holder_name = trimmed_field(line, 64, 90, Field::AccountHolderName)?;
        let account_description = trimmed_field(line, 90, 125, Field::AccountDescription)?;
        let coda_sequence = text_field(line, 125, 128, Field::CodaSequence)?;
        Ok(
            OldBalance {
                account,
                old_sequence,
                old_balance_sign,
                old_balance,
                old_balance_date,
                account_holder_name,
                account_description,
                coda_sequence,
            },
        )
    }

    /// The opening balance in minor units, with its sign applied.
    pub fn signed_old_balance(&self) -> (r: i128)
        ensures
            r == signed_value(self.old_balance_sign, self.old_balance as int),
    {
        self.old_balance_sign.signed(self.old_balance)
    }
}


fn duplicate_field(line: &str, a: usize, b: usize, field: Field) -> (r: Result<bool, FieldError>)
    requires
        a <= b,
    ensures
        r == tag(decode_at(line@, a as int, b as int, |s| duplicate_of(s)), field),
{
    match parse_field(line, a..b, parse_duplicate) {
        Ok(v) => Ok(v),
        Err(cause) => Err(FieldError { field, cause }),
    }
}

/// The opening record of a statement file.
#[derive(PartialEq, Eq, Debug)]
pub struct Header {
    pub creation_date: Date,
    pub bank_id: String,
    pub duplicate: bool,
    pub file_reference: String,
    pub name_addressee: String,
    pub bic: String,
    pub company_id: String,
    pub reference: String,
    pub related_reference: String,
    pub version: u8,
}

/// A [`Header`] with its text seen as sequences of characters.
pub struct HeaderView {
    pub creation_date: Date,
    pub bank_id: Seq<char>,
    pub duplicate: bool,
    pub file_reference: Seq<char>,
    pub name_addressee: Seq<char>,
    pub bic: Seq<char>,
    pub company_id: Seq<char>,
    pub reference: Seq<char>,
    pub related_reference: Seq<char>,
    pub version: u8,
}

impl View for Header {
    type V = HeaderView;

    open spec fn view(&self) -> HeaderView {
        HeaderView {
            creation_date: self.creation_date,
            bank_id: self.bank_id@,
            duplicate: self.duplicate,
            file_reference: self.file_reference@,
            name_addressee: self.name_addressee@,
            bic: self.bic@,
            company_id: self.company_id@,
            reference: self.reference@,
            related_reference: self.related_reference@,
            version: self.version,
        }
    }
}

/// The header that line `l` holds.
pub open spec fn header_of(l: Seq<char>) -> Result<HeaderView, FieldError> {
    let creation_date = tag(decode_at(l, 5, 11, |s| date_of(s)), Field::CreationDate);
    let bank_id = tag(text_at(l, 11, 14), Field::BankId);
    let duplicate = tag(decode_at(l, 16, 17, |s| duplicate_of(s)), Field::Duplicate);
    let file_reference = tag(text_at(l, 24, 34), Field::FileReference);
    let name_addressee = tag(trimmed_at(l, 34, 60), Field::NameAddressee);
    let bic = tag(trimmed_at(l, 60, 71), Field::Bic);
    let company_id = tag(text_at(l, 71, 82), Field::CompanyId);
    let reference = tag(trimmed_at(l, 88, 104), Field::Reference);
    let related_reference = tag(trimmed_at(l, 105, 120), Field::RelatedReference);
    let version = tag(decode_at(l, 127, 128, |s| u8_of(s)), Field::Version);
    if creation_date is Err {
        Err(creation_date->Err_0)
    } else if bank_id is Err {
        Err(bank_id->Err_0)
    } else if duplicate is Err {
        Err(duplicate->Err_0)
    } else if file_reference is Err {
        Err(file_reference->Err_0)
    } else if name_addressee is Err {
        Err(name_addressee->Err_0)
    } else if bic is Err {
        Err(bic->Err_0)
    } else if company_id is Err {
        Err(company_id->Err_0)
    } else if reference is Err {
        Err(reference->Err_0)
    } else if related_reference is Err {
        Err(related_reference->Err_0)
    } else if version is Err {
        Err(version->Err_0)
    } else {
        Ok(
            HeaderView {
                creation_date: creation_date->Ok_0,
                bank_id: bank_id->Ok_0,
                duplicate: duplicate->Ok_0,
                file_reference: file_reference->Ok_0,
                name_addressee: name_addressee->Ok_0,
                bic: bic->Ok_0,
                company_id: company_id->Ok_0,
                reference: reference->Ok_0,
                related_reference: related_reference->Ok_0,
                version: version->Ok_0,
            },
        )
    }
}

/// A one-character run of digits denotes that digit.
proof fn lemma_single_digit(s: Seq<char>)
    requires
        s.len() == 1,
    ensures
        digits_value(s) == digit_value(s[0]),
{
    assert(s.drop_last() =~= Seq::<char>::empty());
    assert(digits_value(s.drop_last()) == 0);
    assert(s.last() == s[0]);
}

impl Header {
    /// Decodes a header line (one that starts with `0`). The format version
    /// is the single digit at the end of the line: a line without a digit
    /// there is refused.
    pub fn parse(line: &str) -> (r: Result<Header, FieldError>)
        ensures
            view_result(r) == header_of(line@),
            r matches Ok(h) ==> h.version < 10 && h.version as int == digit_value(line@[127]),
            !(line@.len() >= 128 && is_digit(line@[127])) ==> r is Err,
    {
        proof {
            if line@.len() >= 128 {
                lemma_single_digit(line@.subrange(127, 128));
            }
        }
        let creation_date = date_field(line, 5, 11, Field::CreationDate)?;
        let bank_id = text_field(line, 11, 14, Field::BankId)?;
        let duplicate = duplicate_field(line, 16, 17, Field::Duplicate)?;
        let file_reference = text_field(line, 24, 34, Field::FileReference)?;
        let name_addressee = trimmed_field(line, 34, 60, Field::NameAddressee)?;
        let bic = trimmed_field(line, 60, 71, Field::Bic)?;
        let company_id = text_field(line, 71, 82, Field::CompanyId)?;
        let reference = trimmed_field(line, 88, 104, Field::Reference)?;
        let related_reference = trimmed_field(line, 105, 120, Field::RelatedReference)?;
        let version = u8_field(line, 127, 128, Field::Version)?;
        Ok(
            Header {
                creation_date,
                bank_id,
                duplicate,
                file_reference,
                name_addressee,
                bic,
                company_id,
                reference,
                related_reference,
                version,
            },
        )
    }
}

/// A movement on the account, possibly extended by continuation lines.
#[derive(PartialEq, Eq, Debug)]
pub struct Movement {
    pub sequence: String,
    pub detail_sequence: String,
    pub bank_reference: String,
    pub amount: u64,
    pub value_date: Date,
    pub transaction_code: String,
    pub communication: String,
    pub entry_date: Date,
    pub statement_number: String,
    pub customer_reference: Option<String>,
    pub counterparty_bic: Option<String>,
    pub r_transaction: Option<String>,
    pub r_reason: Option<String>,
    pub category_purpose: Option<String>,
    pub purpose: Option<String>,
    pub counterparty_account: Option<String>,
    pub counterparty_name: Option<String>,
}

/// A [`Movement`] with its text seen as sequences of characters.
pub struct MovementView {
    pub sequence: Seq<char>,
    pub detail_sequence: Seq<char>,
    pub bank_reference: Seq<char>,
    pub amount: u64,
    pub value_date: Date,
    pub transaction_code: Seq<char>,
    pub communication: Seq<char>,
    pub entry_date: Date,
    pub statement_number: Seq<char>,
    pub customer_reference: Option<Seq<char>>,
    pub counterparty_bic: Option<Seq<char>>,
    pub r_transaction: Option<Seq<char>>,
    pub r_reason: Option<Seq<char>>,
    pub category_purpose: Option<Seq<char>>,
    pub purpose: Option<Seq<char>>,
    pub counterparty_account: Option<Seq<char>>,
    pub counterparty_name: Option<Seq<char>>,
}

impl View for Movement {
    type V = MovementView;

    open spec fn view(&self) -> MovementView {
        MovementView {
            sequence: self.sequence@,
            detail_sequence: self.detail_sequence@,
            bank_reference: self.bank_reference@,
            amount: self.amount,
            value_date: self.value_date,
            transaction_code: self.transaction_code@,
            communication: self.communication@,
            entry_date: self.entry_date,
            statement_number: self.statement_number@,
            customer_reference: opt_view(self.customer_reference),
            counterparty_bic: opt_view(self.counterparty_bic),
            r_transaction: opt_view(self.r_transaction),
            r_reason: opt_view(self.r_reason),
            category_purpose: opt_view(self.category_purpose),
            purpose: opt_view(self.purpose),
            counterparty_account: opt_view(self.counterparty_account),
            counterparty_name: opt_view(self.counterparty_name),
        }
    }
}

/// The movement that its first line `l` (type 1) opens; the fields of the
/// continuation lines are still absent.
pub open spec fn movement_of(l: Seq<char>) -> Result<MovementView, FieldError> {
    let sequence = tag(text_at(l, 2, 6), Field::Sequence);
    let detail_sequence = tag(text_at(l, 6, 10), Field::DetailSequence);
    let bank_reference = tag(text_at(l, 10, 31), Field::BankReference);
    let amount = tag(decode_at(l, 31, 47, |s| u64_of(s)), Field::Amount);
    let value_date = tag(decode_at(l, 47, 53, |s| date_of(s)), Field::ValueDate);
    let transaction_code = tag(text_at(l, 53, 61), Field::TransactionCode);
    let communication = tag(trimmed_at(l, 62, 115), Field::Communication);
    let entry_date = tag(decode_at(l, 115, 121, |s| date_of(s)), Field::EntryDate);
    let statement_number = tag(text_at(l, 121, 124), Field::StatementNumber);
    if sequence is Err {
        Err(sequence->Err_0)
    } else if detail_sequence is Err {
        Err(detail_sequence->Err_0)
    } else if bank_reference is Err {
        Err(bank_reference->Err_0)
    } else if amount is Err {
        Err(amount->Err_0)
    } else if value_date is Err {
        Err(value_date->Err_0)
    } else if transaction_code is Err {
        Err(transaction_code->Err_0)
    } else if communication is Err {
        Err(communication->Err_0)
    } else if entry_date is Err {
        Err(entry_date->Err_0)
    } else if statement_number is Err {
        Err(statement_number->Err_0)
    } else {
        Ok(
            MovementView {
                sequence: sequence->Ok_0,
                detail_sequence: detail_sequence->Ok_0,
                bank_reference: bank_reference->Ok_0,
                amount: amount->Ok_0,
                value_date: value_date->Ok_0,
                transaction_code: transaction_code->Ok_0,
                communication: communication->Ok_0,
                entry_date: entry_date->Ok_0,
                statement_number: statement_number->Ok_0,
                customer_reference: None,
                counterparty_bic: None,
                r_transaction: None,
                r_reason: None,
                category_purpose: None,
                purpose: None,
                counterparty_account: None,
                counterparty_name: None,
            },
        )
    }
}

/// `m` once a type-2 line `l` has continued it: the extension fields are
/// set, and a line of communication is added.
pub open spec fn movement_type2(m: MovementView, l: Seq<char>) -> Result<MovementView, FieldError> {
    let customer_reference = tag(trimmed_at(l, 121, 124), Field::CustomerReference);
    let counterparty_bic = tag(trimmed_at(l, 98, 109), Field::CounterpartyBic);
    let r_transaction = tag(trimmed_at(l, 112, 113), Field::RTransaction);
    let r_reason = tag(trimmed_at(l, 113, 117), Field::RReason);
    let category_purpose = tag(trimmed_at(l, 117, 121), Field::CategoryPurpose);
    let purpose = tag(trimmed_at(l, 121, 125), Field::Purpose);
    let piece = tag(appended_at(l, 10, 63), Field::Communication);
    if customer_reference is Err {
        Err(customer_reference->Err_0)
    } else if counterparty_bic is Err {
        Err(counterparty_bic->Err_0)
    } else if r_transaction is Err {
        Err(r_transaction->Err_0)
    } else if r_reason is Err {
        Err(r_reason->Err_0)
    } else if category_purpose is Err {
        Err(category_purpose->Err_0)
    } else if purpose is Err {
        Err(purpose->Err_0)
    } else if piece is Err {
        Err(piece->Err_0)
    } else {
        Ok(
            MovementView {
                communication: m.communication + piece->Ok_0,
                customer_reference: Some(customer_reference->Ok_0),
                counterparty_bic: Some(counterparty_bic->Ok_0),
                r_transaction: Some(r_transaction->Ok_0),
                r_reason: Some(r_reason->Ok_0),
                category_purpose: Some(category_purpose->Ok_0),
                purpose: Some(purpose->Ok_0),
                ..m
            },
        )
    }
}

/// `m` once a type-3 line `l` has continued it: the counterparty is set,
/// and a line of communication is added.
pub open spec fn movement_type3(m: MovementView, l: Seq<char>) -> Result<MovementView, FieldError> {
    let counterparty_name = tag(trimmed_at(l, 10, 47), Field::CounterpartyName);
    let counterparty_account = tag(trimmed_at(l, 47, 82), Field::CounterpartyAccount);
    let piece = tag(appended_at(l, 82, 125), Field::Communication);
    if counterparty_name is Err {
        Err(counterparty_name->Err_0)
    } else if counterparty_account is Err {
        Err(counterparty_account->Err_0)
    } else if piece is Err {
        Err(piece->Err_0)
    } else {
        Ok(
            MovementView {
                communication: m.communication + piece->Ok_0,
                counterparty_name: Some(counterparty_name->Ok_0),
                counterparty_account: Some(counterparty_account->Ok_0),
                ..m
            },
        )
    }
}

impl Movement {
    /// Decodes the first line (type 1) of a movement.
    pub fn parse_type1(line: &str) -> (r: Result<Movement, FieldError>)
        ensures
            view_result(r) == movement_of(line@),
    {
        let sequence = text_field(line, 2, 6, Field::Sequence)?;
        let detail_sequence = text_field(line, 6, 10, Field::DetailSequence)?;
        let bank_reference = text_field(line, 10, 31, Field::BankReference)?;
        let amount = u64_field(line, 31, 47, Field::Amount)?;
        let value_date = date_field(line, 47, 53, Field::ValueDate)?;
        let transaction_code = text_field(line, 53, 61, Field::TransactionCode)?;
        let communication = trimmed_field(line, 62, 115, Field::Communication)?;
        let entry_date = date_field(line, 115, 121, Field::EntryDate)?;
        let statement_number = text_field(line, 121, 124, Field::StatementNumber)?;
        Ok(
            Movement {
                sequence,
                detail_sequence,
                bank_reference,
                amount,
                value_date,
                transaction_code,
                communication,
                entry_date,
                statement_number,
                customer_reference: None,
                counterparty_bic: None,
                r_transaction: None,
                r_reason: None,
                category_purpose: None,
                purpose: None,
                counterparty_account: None,
                counterparty_name: None,
            },
        )
    }

    /// Takes in a type-2 line: the extension fields, and a line of communication.
    pub fn parse_type2(&mut self, line: &str) -> (r: Result<(), FieldError>)
        ensures
            match r {
                Ok(_) => movement_type2(old(self)@, line@) == Ok::<MovementView, FieldError>(
                    final(self)@,
                ),
                Err(e) => movement_type2(old(self)@, line@) == Err::<MovementView, FieldError>(e)
                    && *final(self) == *old(self),
            },
    {
        let customer_reference = trimmed_field(line, 121, 124, Field::CustomerReference)?;
        let counterparty_bic = trimmed_field(line, 98, 109, Field::CounterpartyBic)?;
        let r_transaction = trimmed_field(line, 112, 113, Field::RTransaction)?;
        let r_reason = trimmed_field(line, 113, 117, Field::RReason)?;
        let category_purpose = trimmed_field(line, 117, 121, Field::CategoryPurpose)?;
        let purpose = trimmed_field(line, 121, 125, Field::Purpose)?;
        let piece = appended_field(line, 10, 63, Field::Communication)?;
        self.customer_reference = Some(customer_reference);
        self.counterparty_bic = Some(counterparty_bic);
        self.r_transaction = Some(r_transaction);
        self.r_reason = Some(r_reason);
        self.category_purpose = Some(category_purpose);
        self.purpose = Some(purpose);
        self.communication.append(piece.as_str());
        Ok(())
    }

    /// Takes in a type-3 line: the counterparty, and a line of communication.
    pub fn parse_type3(&mut self, line: &str) -> (r: Result<(), FieldError>)
        ensures
            match r {
                Ok(_) => movement_type3(old(self)@, line@) == Ok::<MovementView, FieldError>(
                    final(self)@,
                ),
                Err(e) => movement_type3(old(self)@, line@) == Err::<MovementView, FieldError>(e)
                    && *final(self) == *old(self),
            },
    {
        let counterparty_name = trimmed_field(line, 10, 47, Field::CounterpartyName)?;
        let counterparty_account = trimmed_field(line, 47, 82, Field::CounterpartyAccount)?;
        let piece = appended_field(line, 82, 125, Field::Communication)?;
        self.counterparty_name = Some(counterparty_name);
        self.counterparty_account = Some(counterparty_account);
        self.communication.append(piece.as_str());
        Ok(())
    }
}


/// The number that `digits` denote, negated when `sign` is `'1'`.
pub open spec fn signed_digits(sign: char, digits: Seq<char>) -> int {
    if sign == '1' {
        -digits_value(digits)
    } else {
        digits_value(digits)
    }
}

/// On every line that decodes as an opening balance, a closing balance or a
/// trailer, each amount is the number of minor units that its digits
/// denote; a balance is negated when its sign is a debit.
pub proof fn lemma_amounts_in_minor_units(l: Seq<char>)
    ensures
        old_balance_of(l) matches Ok(b) ==> signed_value(b.old_balance_sign, b.old_balance as int)
            == signed_digits(l[42], l.subrange(43, 58)),
        new_balance_of(l) matches Ok(b) ==> signed_value(b.new_balance_sign, b.new_balance as int)
            == signed_digits(l[42], l.subrange(41, 57)),
        trailer_of(l) matches Ok(t) ==> t.total_debit as int == digits_value(l.subrange(22, 37))
            && t.total_credit as int == digits_value(l.subrange(37, 52)),
{
    if l.len() >= 43 {
        let s = l.subrange(42, 43);
        assert(s[0] == l[42]);
        if s == seq!['0'] {
            assert(s[0] == '0');
        } else if s == seq!['1'] {
            assert(s[0] == '1');
        }
    }
    if l.len() >= 58 && all_digits(l.subrange(43, 58)) {
        lemma_digits_value_nonneg(l.subrange(43, 58));
    }
    if l.len() >= 57 && all_digits(l.subrange(41, 57)) {
        lemma_digits_value_nonneg(l.subrange(41, 57));
    }
    if l.len() >= 52 && all_digits(l.subrange(22, 37)) {
        lemma_digits_value_nonneg(l.subrange(22, 37));
    }
    if l.len() >= 52 && all_digits(l.subrange(37, 52)) {
        lemma_digits_value_nonneg(l.subrange(37, 52));
    }
}

} // verus!
