use brc20_transfer::memo::{decode, encode, frame, Memo};

#[test]
fn test_1() {
    assert_eq!(3, brc20_transfer::add(1, 2));
}

#[test]
fn test_memo() {
    let memo_struct = Memo::new(
        "brc-20".to_string(),
        "transfer".to_string(),
        "ordi".to_string(),
        "1000".to_string(),
    );
    let memo = memo_struct.encode();
    println!("{}", memo);
    assert_eq!(
        "{\"p\":\"brc-20\",\"op\":\"transfer\",\"tick\":\"ordi\",\"amt\":\"1000\"}",
        memo
    )
}

#[test]
fn add_reaches_the_largest_amount() {
    assert_eq!(brc20_transfer::add(u64::MAX - 1, 1), u64::MAX);
    assert_eq!(brc20_transfer::add(0, 0), 0);
}

#[test]
fn new_keeps_the_four_fields() {
    let memo = Memo::new("a".to_string(), "b".to_string(), "c".to_string(), "d".to_string());
    assert_eq!(memo.p, "a");
    assert_eq!(memo.op, "b");
    assert_eq!(memo.tick, "c");
    assert_eq!(memo.amt, "d");
}

#[test]
fn transfer_memo_has_the_fixed_tags() {
    let memo = Memo::transfer("ordi", "1000");
    assert_eq!(memo.p, "brc-20");
    assert_eq!(memo.op, "transfer");
    assert_eq!(memo.tick, "ordi");
    assert_eq!(memo.amt, "1000");
    assert_eq!(
        memo.encode(),
        "{\"p\":\"brc-20\",\"op\":\"transfer\",\"tick\":\"ordi\",\"amt\":\"1000\"}"
    );
}

#[test]
fn frame_keeps_key_order() {
    assert_eq!(frame("1", "2", "3", "4"), "{\"p\":1,\"op\":2,\"tick\":3,\"amt\":4}");
    assert_eq!(frame("", "", "", ""), "{\"p\":,\"op\":,\"tick\":,\"amt\":}");
}

#[test]
fn encode_of_empty_fields() {
    let memo = Memo::new(String::new(), String::new(), String::new(), String::new());
    assert_eq!(memo.encode(), "{\"p\":\"\",\"op\":\"\",\"tick\":\"\",\"amt\":\"\"}");
}

#[test]
fn encode_escapes_what_json_escapes() {
    let memo = Memo::new(
        "a\"b".to_string(),
        "c\\d".to_string(),
        "e\nf".to_string(),
        "\u{1}".to_string(),
    );
    assert_eq!(
        memo.encode(),
        "{\"p\":\"a\\\"b\",\"op\":\"c\\\\d\",\"tick\":\"e\\nf\",\"amt\":\"\\u0001\"}"
    );
}

#[test]
fn encode_is_valid_json_with_the_same_fields() {
    let memo = Memo::new(
        "quote \" here".to_string(),
        "tab\there".to_string(),
        "ünï".to_string(),
        "12".to_string(),
    );
    let text = memo.encode();
    let value: serde_json::Value = serde_json::from_str(&text).unwrap();
    assert_eq!(value.get("p").and_then(|v| v.as_str()), Some("quote \" here"));
    assert_eq!(value.get("op").and_then(|v| v.as_str()), Some("tab\there"));
    assert_eq!(value.get("tick").and_then(|v| v.as_str()), Some("ünï"));
    assert_eq!(value.get("amt").and_then(|v| v.as_str()), Some("12"));
}

#[test]
fn decode_reads_back_what_encode_wrote() {
    let memo = Memo::transfer("ordi", "1000");
    let text = memo.encode();
    assert_eq!(Memo::decode(&text), Some(memo));
}

#[test]
fn round_trip_over_tickers_and_amounts() {
    let tickers = ["ordi", "SATS", "a1B2", "x", "", "with space", "p-q_r.s"];
    let amounts = ["0", "1", "1000", "18446744073709551615", "007"];
    for ticker in tickers {
        for amount in amounts {
            let decoded = Memo::decode(&Memo::transfer(ticker, amount).encode()).unwrap();
            assert_eq!(decoded.tick, ticker);
            assert_eq!(decoded.amt, amount);
            assert_eq!(decoded.p, "brc-20");
            assert_eq!(decoded.op, "transfer");
        }
    }
}

#[test]
fn decode_of_the_wire_format() {
    let memo =
        Memo::decode("{\"p\":\"brc-20\",\"op\":\"transfer\",\"tick\":\"ordi\",\"amt\":\"1000\"}")
            .unwrap();
    assert_eq!(
        memo,
        Memo::new(
            "brc-20".to_string(),
            "transfer".to_string(),
            "ordi".to_string(),
            "1000".to_string()
        )
    );
}

#[test]
fn decode_of_empty_fields() {
    let memo = Memo::decode("{\"p\":\"\",\"op\":\"\",\"tick\":\"\",\"amt\":\"\"}").unwrap();
    assert_eq!(memo, Memo::new(String::new(), String::new(), String::new(), String::new()));
}

#[test]
fn decode_refuses_other_text() {
    let refused = [
        "",
        "{}",
        "{\"p\":\"brc-20\"}",
        "{\"p\":\"brc-20\",\"op\":\"transfer\",\"tick\":\"ordi\",\"amt\":\"1000\"",
        "{\"p\":\"brc-20\",\"op\":\"transfer\",\"tick\":\"ordi\",\"amt\":\"1000\"} ",
        " {\"p\":\"brc-20\",\"op\":\"transfer\",\"tick\":\"ordi\",\"amt\":\"1000\"}",
        "{\"p\": \"brc-20\",\"op\":\"transfer\",\"tick\":\"ordi\",\"amt\":\"1000\"}",
        "{\"op\":\"transfer\",\"p\":\"brc-20\",\"tick\":\"ordi\",\"amt\":\"1000\"}",
        "{\"p\":\"brc-20\",\"op\":\"transfer\",\"tick\":\"ordi\",\"amt\":1000}",
        "{\"p\":\"brc-20\",\"op\":\"transfer\",\"tick\":\"or\\\"di\",\"amt\":\"1000\"}",
        "{\"p\":\"brc-20\",\"op\":\"transfer\",\"tick\":\"or\\\\di\",\"amt\":\"1000\"}",
        "{\"p\":\"brc-20\",\"op\":\"transfer\",\"tick\":\"or\ndi\",\"amt\":\"1000\"}",
        "{\"p\":\"brc-20\",\"op\":\"transfer\",\"tick\":\"ordi\",\"amt\":\"1000\",\"x\":\"y\"}",
        "{\"p\":\"brc-20\",\"op\":\"transfer\",\"tick\":\"ördi\",\"amt\":\"1000\"}",
        "{\"p\":\"brc-20\",\"op\":\"transfer\",\"tick\":\"ordi\",\"amt\":\"10\u{7f}00\"}",
    ];
    for text in refused {
        assert_eq!(Memo::decode(text), None, "{}", text);
    }
}

#[test]
fn decode_refuses_what_encode_had_to_escape() {
    let memo = Memo::transfer("or\"di", "1000");
    assert_eq!(Memo::decode(&memo.encode()), None);
}

#[test]
fn encode_of_ticker_and_amount() {
    assert_eq!(
        encode("ordi", "1000"),
        "{\"p\":\"brc-20\",\"op\":\"transfer\",\"tick\":\"ordi\",\"amt\":\"1000\"}"
    );
    assert_eq!(
        encode("", ""),
        "{\"p\":\"brc-20\",\"op\":\"transfer\",\"tick\":\"\",\"amt\":\"\"}"
    );
}

#[test]
fn decode_gives_ticker_and_amount_back() {
    let tickers = ["ordi", "SATS", "Zz09", "a"];
    let amounts = ["0", "42", "21000000", "18446744073709551616"];
    for ticker in tickers {
        for amount in amounts {
            assert_eq!(
                decode(&encode(ticker, amount)),
                Some((ticker.to_string(), amount.to_string()))
            );
        }
    }
}

#[test]
fn decode_wants_the_fixed_tags() {
    assert_eq!(
        decode("{\"p\":\"brc-20\",\"op\":\"transfer\",\"tick\":\"ordi\",\"amt\":\"1000\"}"),
        Some(("ordi".to_string(), "1000".to_string()))
    );
    assert_eq!(
        decode("{\"p\":\"brc-21\",\"op\":\"transfer\",\"tick\":\"ordi\",\"amt\":\"1000\"}"),
        None
    );
    assert_eq!(
        decode("{\"p\":\"brc-20\",\"op\":\"mint\",\"tick\":\"ordi\",\"amt\":\"1000\"}"),
        None
    );
    assert_eq!(decode("not a memo"), None);
    let other =
        Memo::new("brc-20".to_string(), "mint".to_string(), "x".to_string(), "1".to_string());
    assert_eq!(decode(&other.encode()), None);
    assert_eq!(Memo::decode(&other.encode()), Some(other));
}
