//! The content codec parses back exactly what it wrote.

use coinstr_sdk::codec::{append_hex, parse_hex, parse_lpstr, str_contains_sub, str_starts_with};
use coinstr_sdk::domain::{
    encode_approved, encode_completed, encode_policy, encode_proposal, encode_shared_signer,
    encode_signer, parse_approved, parse_completed, parse_policy, parse_proposal,
    parse_shared_signer, parse_signer, ApprovedProposal, CompletedProposal, Policy, Proposal,
    SharedSigner, Signer, SignerType,
};
use coinstr_sdk::engine::{get_keychains_list, hex256};
use coinstr_sdk::ids::Txid;

#[test]
fn hex_number_round_trip() {
    let mut out = String::new();
    append_hex(&mut out, 0xdeadbeef, 16);
    assert_eq!(out, "00000000deadbeef");
    let back = parse_hex(&out, 0, 16).unwrap();
    assert_eq!(back, 0xdeadbeef);
}

#[test]
fn hex_number_rejects_bad_digit() {
    assert!(parse_hex("00000000deadbeeX", 0, 16).is_none());
    assert!(parse_hex("short", 0, 16).is_none());
}

#[test]
fn hex256_is_sixty_four_digits() {
    let h = hex256(1, 2);
    assert_eq!(h.len(), 64);
    assert_eq!(&h[..32], "00000000000000000000000000000001");
    assert_eq!(&h[32..], "00000000000000000000000000000002");
}

#[test]
fn length_prefixed_string_round_trip() {
    let mut out = String::new();
    coinstr_sdk::codec::append_lpstr(&mut out, "hello, multisig \u{1F511}");
    let (body, end) = parse_lpstr(&out, 0).unwrap();
    assert_eq!(body, "hello, multisig \u{1F511}");
    assert_eq!(end, out.chars().count());
}

#[test]
fn policy_round_trip() {
    let p = Policy {
        name: String::from("Joint"),
        description: String::from(""),
        descriptor: String::from("tr(aa)"),
    };
    let s = encode_policy(&p);
    let q = parse_policy(&s).unwrap();
    assert_eq!(q.name, "Joint");
    assert_eq!(q.description, "");
    assert_eq!(q.descriptor, "tr(aa)");
}

#[test]
fn policy_rejects_trailing_junk() {
    let p = Policy {
        name: String::from("a"),
        description: String::from("b"),
        descriptor: String::from("c"),
    };
    let mut s = encode_policy(&p);
    s.push('x');
    assert!(parse_policy(&s).is_none());
}

#[test]
fn proposal_round_trips_both_kinds() {
    let spending = Proposal::Spending {
        descriptor: String::from("tr(k)"),
        to_address: String::from("bc1qexample"),
        amount: 50_000,
        description: String::from("rent"),
        psbt: String::from("cHNidP8="),
    };
    let s = encode_proposal(&spending);
    match parse_proposal(&s).unwrap() {
        Proposal::Spending { amount, description, to_address, .. } => {
            assert_eq!(amount, 50_000);
            assert_eq!(description, "rent");
            assert_eq!(to_address, "bc1qexample");
        },
        _ => panic!("wrong variant"),
    }
    let proof = Proposal::ProofOfReserve {
        descriptor: String::from("tr(k)"),
        message: String::from("challenge"),
        psbt: String::from("cHNidP8="),
    };
    let s = encode_proposal(&proof);
    match parse_proposal(&s).unwrap() {
        Proposal::ProofOfReserve { message, .. } => assert_eq!(message, "challenge"),
        _ => panic!("wrong variant"),
    }
}

#[test]
fn approved_and_completed_round_trip() {
    let a = ApprovedProposal::Spending { psbt: String::from("partial") };
    match parse_approved(&encode_approved(&a)).unwrap() {
        ApprovedProposal::Spending { psbt } => assert_eq!(psbt, "partial"),
        _ => panic!("wrong variant"),
    }
    let c = CompletedProposal::Spending {
        txid: Txid { hi: 7, lo: 9 },
        description: String::from("rent"),
        tx: String::from("rawtx"),
    };
    match parse_completed(&encode_completed(&c)).unwrap() {
        CompletedProposal::Spending { txid, description, tx } => {
            assert_eq!(txid.hi, 7);
            assert_eq!(txid.lo, 9);
            assert_eq!(description, "rent");
            assert_eq!(tx, "rawtx");
        },
        _ => panic!("wrong variant"),
    }
}

#[test]
fn signer_round_trip() {
    let g = Signer {
        name: String::from("ledger"),
        fingerprint: String::from("deadbeef"),
        descriptor: String::from("tr(abc)"),
        signer_type: SignerType::Hardware,
    };
    let back = parse_signer(&encode_signer(&g)).unwrap();
    assert_eq!(back.name, "ledger");
    assert_eq!(back.fingerprint, "deadbeef");
    assert!(matches!(back.signer_type, SignerType::Hardware));
    let ss = SharedSigner {
        fingerprint: String::from("deadbeef"),
        descriptor: String::from("tr(abc)"),
    };
    let back = parse_shared_signer(&encode_shared_signer(&ss)).unwrap();
    assert_eq!(back.descriptor, "tr(abc)");
}

#[test]
fn text_search_helpers() {
    assert!(str_starts_with("tr(abc)", "tr("));
    assert!(!str_starts_with("wsh(abc)", "tr("));
    assert!(str_contains_sub("a policy tr(abcdef) end", "tr(abcdef)"));
    assert!(!str_contains_sub("short", "longer needle"));
}

#[test]
fn keychain_list_filters_extension() {
    let entries = vec![
        String::from("alice.coinstr"),
        String::from("notes.txt"),
        String::from("bob.coinstr"),
        String::from("x"),
    ];
    let names = get_keychains_list(entries);
    assert_eq!(names, vec![String::from("alice"), String::from("bob")]);
}
