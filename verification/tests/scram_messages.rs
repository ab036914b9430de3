use pgwire::api::auth::scram::message::{
    ClientFinal, ClientFirst, ServerFinalError, ServerFinalSuccess, ServerFirst,
};
use pgwire::error::PgWireError;

fn invalid(text: &str) -> PgWireError {
    PgWireError::InvalidScramMessage(text.to_owned())
}

#[test]
fn client_first_is_read() {
    let m = ClientFirst::try_new("n,,n=user,r=rOprNGfwEbeRWgbNEkqO").unwrap();
    assert_eq!(m.nonce(), "rOprNGfwEbeRWgbNEkqO");
    assert_eq!(m.bare(), "n=user,r=rOprNGfwEbeRWgbNEkqO");
    assert_eq!(m.channel_binding(), "n,,");
    assert_eq!(m.channel_binding_type(), None);
}

#[test]
fn client_first_with_channel_binding() {
    let m = ClientFirst::try_new("p=tls-unique,a=admin,n=,r=").unwrap();
    assert_eq!(m.channel_binding(), "p=tls-unique,a=admin,");
    assert_eq!(m.channel_binding_type(), Some("tls-unique"));
    assert_eq!(m.bare(), "n=,r=");
    assert_eq!(ClientFirst::try_new("p=,,n=,r=").unwrap().channel_binding_type(), Some(""));
    assert_eq!(ClientFirst::try_new("y,,n=,r=x").unwrap().channel_binding(), "y,,");
}

#[test]
fn client_first_is_header_and_bare() {
    for s in ["n,,n=user,r=abc", "y,a=z,n=,r=,ext=1", "p=x,,n=u\u{e9},r=="] {
        let m = ClientFirst::try_new(s).unwrap();
        assert_eq!(m.channel_binding() + &m.bare(), s);
    }
}

#[test]
fn what_follows_the_nonce_belongs_to_it() {
    let m = ClientFirst::try_new("n,,n=user,r=abc,ext=1").unwrap();
    assert_eq!(m.nonce(), "abc,ext=1");
}

#[test]
fn malformed_client_first() {
    for s in [
        "",
        "n,,n=user",
        "x,,n=user,r=abc",
        "nn,,n=user,r=abc",
        ",,n=user,r=abc",
        "p,,n=user,r=abc",
        "n,,user,r=abc",
        "n,,n=user,abc",
        "n,n=user,r=abc,",
    ] {
        assert_eq!(ClientFirst::try_new(s).unwrap_err(), invalid(s));
    }
}

#[test]
fn channel_binding_flags() {
    assert!(ClientFirst::validate_cbind_flag("n"));
    assert!(ClientFirst::validate_cbind_flag("y"));
    assert!(ClientFirst::validate_cbind_flag("p="));
    assert!(ClientFirst::validate_cbind_flag("p=tls-server-end-point"));
    assert!(!ClientFirst::validate_cbind_flag("p"));
    assert!(!ClientFirst::validate_cbind_flag("ny"));
    assert!(!ClientFirst::validate_cbind_flag(""));
}

#[test]
fn server_messages() {
    let first = ServerFirst::new("abc".to_owned(), "c2FsdA==".to_owned(), 4096);
    assert_eq!(first.message(), "r=abc,s=c2FsdA==,i=4096");
    assert_eq!(ServerFirst::new(String::new(), String::new(), 0).message(), "r=,s=,i=0");
    assert_eq!(ServerFinalSuccess::new("c2ln".to_owned()).message(), "v=c2ln");
    assert_eq!(ServerFinalError::new("other-error".to_owned()).message(), "e=other-error");
}

#[test]
fn client_final_is_read() {
    let m = ClientFinal::try_new("c=biws,r=abcdef,p=cHJvb2Y=").unwrap();
    assert_eq!(m.client_proof(), "cHJvb2Y=");
    assert_eq!(m.without_proof(), "c=biws,r=abcdef");
    let odd = ClientFinal::try_new("c=,r=,p=a,b").unwrap();
    assert_eq!(odd.client_proof(), "a,b");
    assert_eq!(odd.without_proof(), "c=,r=");
}

#[test]
fn client_final_is_its_message() {
    for s in ["c=biws,r=abc,p=cHJvb2Y=", "c=,r=,p=", "c=\u{e9},r=x,p=y,z"] {
        let m = ClientFinal::try_new(s).unwrap();
        assert_eq!(m.without_proof() + ",p=" + m.client_proof(), s);
    }
}

#[test]
fn malformed_client_final() {
    for s in [
        "",
        "c=biws,r=abc",
        "biws,r=abc,p=x",
        "c=biws,abc,p=x",
        "c=biws,r=abc,x",
        "r=abc,c=biws,p=x",
        "c=biws,r=abc,m=1,p=x",
    ] {
        assert_eq!(ClientFinal::try_new(s).unwrap_err(), invalid(s));
    }
}

#[test]
fn channel_binding_is_compared() {
    let m = ClientFinal::try_new("c=biws,r=abc,p=x").unwrap();
    assert_eq!(m.validate_channel_binding(b"n,,"), Ok(()));
    assert_eq!(
        m.validate_channel_binding(b"y,,"),
        Err(invalid(
            "Channel binding mismatch, expect: [121, 44, 44], decoded: [110, 44, 44]"
        ))
    );
    assert_eq!(
        m.validate_channel_binding(b""),
        Err(invalid("Channel binding mismatch, expect: [], decoded: [110, 44, 44]"))
    );
}

#[test]
fn channel_binding_must_be_base64() {
    let bad_byte = ClientFinal::try_new("c=*iws,r=abc,p=x").unwrap();
    assert_eq!(
        bad_byte.validate_channel_binding(b"n,,"),
        Err(invalid("Failed to decode channel binding: *iws, Invalid byte 42, offset 0."))
    );
    let bad_padding = ClientFinal::try_new("c=bi,r=abc,p=x").unwrap();
    assert_eq!(
        bad_padding.validate_channel_binding(b"n"),
        Err(invalid("Failed to decode channel binding: bi, Invalid padding"))
    );
}

#[test]
fn decoded_channel_binding_decides() {
    let m = ClientFinal::try_new("c=text,r=abc,p=x").unwrap();
    assert_eq!(m.check_channel_binding(Ok(vec![1, 2]), &[1, 2]), Ok(()));
    assert_eq!(
        m.check_channel_binding(Ok(vec![1, 2]), &[3]),
        Err(invalid("Channel binding mismatch, expect: [3], decoded: [1, 2]"))
    );
    assert_eq!(
        m.check_channel_binding(Err("why".to_owned()), &[3]),
        Err(invalid("Failed to decode channel binding: text, why"))
    );
}
