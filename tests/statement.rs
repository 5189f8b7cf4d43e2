use coda_rs::field::ValueError;
use coda_rs::record::Field;
use coda_rs::statement::{classify, Assembler, Coda, CodaError, LineKind, RecordKind};
use coda_rs::text::{decode_text, split_lines};

const HEADER: &str = "0000029031872505        00099449  Testgebruiker21           KREDBEBB   00630366277 00000                                       2";
const OLD_BALANCE: &str = "10001435000000080 EUR0BE                  0000000000000000061206Testgebruiker21           KBC-Bedrijfsrekening               001";
const MOVEMENT1: &str = "2100010000EPIB00048 AWIUBTKAPUO1000000002578250061206007990000BORDEREAU DE DECOMPTE AVANCES    015 NUMERO D'OPERATI06120600111 0";
const MOVEMENT2: &str = "2200010000ON 495953                                                                                                          0 0";
const MOVEMENT3: &str = "2300070003068226750863                         T.P.F.  S.A.                       SECOND PART OF THE COMMUNICATION           0 1";
const INFORMATION1: &str = "3100070006IHMI00001 TBOGOVOVERS501130001001TPF CONSULTING                                                                    1 0";
const INFORMATION2: &str = "3200070006AV. DE HAVESKERCKE  46             1190   BRUXELLES                                                                0 0";
const FREE1: &str = "4 00010000                      LINE 1 FREE COMMUNICATION                                                                      1";
const FREE2: &str = "4 00010001                      LINE 2 FREE COMMUNICATION                                                                      1";
const NEW_BALANCE: &str = "8001435000000080 EUR0BE                  0000009405296990071206                                                                0";
const TRAILER: &str = "9               000260000003085871600000012491168590                                                                           2";

fn lines(ls: &[&str]) -> Vec<String> {
    ls.iter().map(|l| String::from(*l)).collect()
}

#[test]
fn classify_by_leading_characters() {
    assert_eq!(classify(HEADER), LineKind::Header);
    assert_eq!(classify(OLD_BALANCE), LineKind::OldBalance);
    assert_eq!(classify(MOVEMENT1), LineKind::MovementType1);
    assert_eq!(classify(MOVEMENT2), LineKind::MovementType2);
    assert_eq!(classify(MOVEMENT3), LineKind::MovementType3);
    assert_eq!(classify(INFORMATION1), LineKind::InformationType1);
    assert_eq!(classify(INFORMATION2), LineKind::InformationType2);
    assert_eq!(classify("33"), LineKind::InformationType3);
    assert_eq!(classify(FREE1), LineKind::FreeCommunicationFirst);
    assert_eq!(classify(FREE2), LineKind::FreeCommunicationFollowing);
    assert_eq!(classify(NEW_BALANCE), LineKind::NewBalance);
    assert_eq!(classify(TRAILER), LineKind::Trailer);
    assert_eq!(classify(""), LineKind::Other);
    assert_eq!(classify("2"), LineKind::Other);
    assert_eq!(classify("24"), LineKind::Other);
    assert_eq!(classify("5 whatever"), LineKind::Other);
}

#[test]
fn statement_with_every_kind_of_record() {
    let coda = Coda::parse_lines(&lines(&[
        HEADER,
        OLD_BALANCE,
        MOVEMENT1,
        MOVEMENT2,
        INFORMATION1,
        INFORMATION2,
        FREE1,
        FREE2,
        NEW_BALANCE,
        TRAILER,
    ]))
    .unwrap();
    assert_eq!(coda.header.bank_id, "725");
    assert_eq!(coda.old_balance.coda_sequence, "001");
    assert_eq!(coda.movements.len(), 1);
    assert_eq!(coda.information.len(), 1);
    assert_eq!(
        coda.information[0].communication,
        "001TPF CONSULTING\nAV. DE HAVESKERCKE  46             1190   BRUXELLES"
    );
    assert_eq!(coda.free_communications.len(), 1);
    assert_eq!(
        coda.free_communications[0].text,
        "LINE 1 FREE COMMUNICATION\nLINE 2 FREE COMMUNICATION"
    );
    assert_eq!(coda.new_balance.new_balance, 9405296990);
    assert_eq!(coda.trailer.number_records, 260);
}

#[test]
fn movement_communication_joins_three_lines() {
    let coda = Coda::parse_lines(&lines(&[
        HEADER,
        OLD_BALANCE,
        MOVEMENT1,
        MOVEMENT2,
        MOVEMENT3,
        NEW_BALANCE,
        TRAILER,
    ]))
    .unwrap();
    assert_eq!(coda.movements.len(), 1);
    let movement = &coda.movements[0];
    assert_eq!(
        movement.communication,
        "BORDEREAU DE DECOMPTE AVANCES    015 NUMERO D'OPERATI\nON 495953\nSECOND PART OF THE COMMUNICATION"
    );
    assert_eq!(movement.customer_reference.as_deref(), Some(""));
    assert_eq!(movement.counterparty_name.as_deref(), Some("068226750863"));
    assert_eq!(movement.counterparty_account.as_deref(), Some("T.P.F.  S.A."));
}

#[test]
fn continuations_go_to_the_last_entry() {
    let coda = Coda::parse_lines(&lines(&[
        HEADER,
        OLD_BALANCE,
        MOVEMENT1,
        MOVEMENT1,
        MOVEMENT2,
        NEW_BALANCE,
        TRAILER,
    ]))
    .unwrap();
    assert_eq!(coda.movements.len(), 2);
    assert_eq!(coda.movements[0].customer_reference, None);
    assert_eq!(coda.movements[1].customer_reference.as_deref(), Some(""));
}

#[test]
fn pair_decoded_twice_gives_equal_entries() {
    let coda = Coda::parse_lines(&lines(&[
        HEADER,
        OLD_BALANCE,
        MOVEMENT1,
        MOVEMENT2,
        MOVEMENT1,
        MOVEMENT2,
        INFORMATION1,
        INFORMATION2,
        INFORMATION1,
        INFORMATION2,
        FREE1,
        FREE2,
        FREE1,
        FREE2,
        NEW_BALANCE,
        TRAILER,
    ]))
    .unwrap();
    assert_eq!(coda.movements.len(), 2);
    assert_eq!(coda.movements[0], coda.movements[1]);
    assert_eq!(coda.information[0], coda.information[1]);
    assert_eq!(coda.free_communications[0], coda.free_communications[1]);
}

#[test]
fn dangling_movement_continuation() {
    let result = Coda::parse_lines(&lines(&[HEADER, OLD_BALANCE, MOVEMENT2, NEW_BALANCE, TRAILER]));
    assert_eq!(
        result.unwrap_err(),
        CodaError::DanglingContinuation { line: 3, record: RecordKind::Movement }
    );
}

#[test]
fn dangling_information_continuation() {
    let result = Coda::parse_lines(&lines(&[HEADER, MOVEMENT1, INFORMATION2, TRAILER]));
    assert_eq!(
        result.unwrap_err(),
        CodaError::DanglingContinuation { line: 3, record: RecordKind::Information }
    );
}

#[test]
fn dangling_free_communication_continuation() {
    let result = Coda::parse_lines(&lines(&[FREE2]));
    assert_eq!(
        result.unwrap_err(),
        CodaError::DanglingContinuation { line: 1, record: RecordKind::FreeCommunication }
    );
}

#[test]
fn missing_mandatory_records() {
    let result = Coda::parse_lines(&lines(&[OLD_BALANCE, NEW_BALANCE, TRAILER]));
    assert_eq!(
        result.unwrap_err(),
        CodaError::IncompleteStatement { missing: RecordKind::Header }
    );
    let result = Coda::parse_lines(&lines(&[HEADER, NEW_BALANCE, TRAILER]));
    assert_eq!(
        result.unwrap_err(),
        CodaError::IncompleteStatement { missing: RecordKind::OldBalance }
    );
    let result = Coda::parse_lines(&lines(&[HEADER, OLD_BALANCE, MOVEMENT1, TRAILER]));
    assert_eq!(
        result.unwrap_err(),
        CodaError::IncompleteStatement { missing: RecordKind::NewBalance }
    );
    let result = Coda::parse_lines(&lines(&[HEADER, OLD_BALANCE, NEW_BALANCE]));
    assert_eq!(
        result.unwrap_err(),
        CodaError::IncompleteStatement { missing: RecordKind::Trailer }
    );
    let result = Coda::parse_lines(&Vec::new());
    assert_eq!(
        result.unwrap_err(),
        CodaError::IncompleteStatement { missing: RecordKind::Header }
    );
}

#[test]
fn field_error_names_line_and_record() {
    let bad_trailer = "9               00026000000308587160000001249116859";
    let result = Coda::parse_lines(&lines(&[HEADER, OLD_BALANCE, NEW_BALANCE, bad_trailer]));
    assert_eq!(
        result.unwrap_err(),
        CodaError::FieldDecode {
            line: 4,
            record: RecordKind::Trailer,
            field: Field::TotalCredit,
            cause: ValueError::Missing,
        }
    );
}

#[test]
fn first_failure_wins() {
    let result = Coda::parse_lines(&lines(&[HEADER, "10", MOVEMENT2]));
    assert_eq!(
        result.unwrap_err(),
        CodaError::FieldDecode {
            line: 2,
            record: RecordKind::OldBalance,
            field: Field::Account,
            cause: ValueError::Missing,
        }
    );
}

#[test]
fn unknown_lines_are_skipped_and_header_replaced() {
    let second_header = "0000030031872505        00099450  Testgebruiker21           KREDBEBB   00630366277 00000                                       2";
    let coda = Coda::parse_lines(&lines(&[
        HEADER,
        "5 unknown record kind",
        "",
        second_header,
        OLD_BALANCE,
        NEW_BALANCE,
        TRAILER,
    ]))
    .unwrap();
    assert_eq!(coda.header.file_reference, "00099450  ");
}

#[test]
fn assembler_feeds_line_by_line() {
    let mut assembler = Assembler::new();
    assert_eq!(assembler.feed(HEADER, 1), Ok(()));
    assert_eq!(
        assembler.feed(MOVEMENT3, 2),
        Err(CodaError::DanglingContinuation { line: 2, record: RecordKind::Movement })
    );
    let mut assembler = Assembler::new();
    for (i, l) in [HEADER, OLD_BALANCE, NEW_BALANCE, TRAILER].iter().enumerate() {
        assert_eq!(assembler.feed(l, i + 1), Ok(()));
    }
    let coda = assembler.finish().unwrap();
    assert_eq!(coda.movements.len(), 0);
    assert_eq!(coda.trailer.total_debit, 3085871600);
}

#[test]
fn split_lines_like_a_reader() {
    assert_eq!(split_lines("a\nb\r\nc"), vec!["a", "b", "c"]);
    assert_eq!(split_lines("a\n\nb\n"), vec!["a", "", "b"]);
    assert_eq!(split_lines(""), Vec::<String>::new());
    assert_eq!(split_lines("\r\n"), vec![""]);
    assert_eq!(split_lines("a\r"), vec!["a\r"]);
    assert_eq!(split_lines("é\nü"), vec!["é", "ü"]);
}

#[test]
fn parse_freecommunication_windows1252() {
    let line: &[u8] = b"D'INVESTISSEMENT N\xB0 123\n";
    let text = decode_text(line, "windows-1252").unwrap();
    let mut lines_iter = split_lines(&text).into_iter();
    assert_eq!(lines_iter.next(), Some(String::from("D\'INVESTISSEMENT N° 123")));
}

#[test]
fn decode_text_errors() {
    assert_eq!(decode_text(b"abc", "no-such-encoding"), Err(CodaError::UnknownEncoding));
    assert_eq!(decode_text(b"ab\xFF", "utf-8"), Err(CodaError::Undecodable));
    assert_eq!(decode_text(b"caf\xE9", "latin1"), Ok(String::from("café")));
}

#[test]
fn parse_text_and_bytes() {
    let text = [HEADER, OLD_BALANCE, MOVEMENT1, NEW_BALANCE, TRAILER].join("\r\n");
    let coda = Coda::parse_text(&text).unwrap();
    assert_eq!(coda.movements.len(), 1);
    assert_eq!(coda.trailer.total_credit, 12491168590);

    let coda = Coda::parse(text.as_bytes(), "utf-8").unwrap();
    assert_eq!(coda.old_balance.account_holder_name, "Testgebruiker21");
    assert_eq!(
        Coda::parse(text.as_bytes(), "nonsense").unwrap_err(),
        CodaError::UnknownEncoding
    );
    assert_eq!(Coda::parse(b"0\xFF", "utf-8").unwrap_err(), CodaError::Undecodable);
}

#[test]
fn parse_bytes_in_latin1() {
    let free = "4 00010000                      CAFÉ CRÈME                                                                                     1";
    let text = [HEADER, OLD_BALANCE, free, NEW_BALANCE, TRAILER].join("\n");
    let bytes: Vec<u8> = text.chars().map(|c| c as u32 as u8).collect();
    let coda = Coda::parse(&bytes, "latin1").unwrap();
    assert_eq!(coda.free_communications[0].text, "CAFÉ CRÈME");
}
