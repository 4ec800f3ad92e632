use yabts::transform::{Transform, TransformPayload, _Encode};

struct Upper;

impl _Encode for Upper {
    fn _encode(&self, payload: &mut Vec<u8>) -> Result<(), std::io::Error> {
        for b in payload.iter_mut() {
            *b = b.to_ascii_uppercase();
        }
        Ok(())
    }
}

#[test]
fn user_encoder_runs_through_transform() {
    let t = TransformPayload {
        to_method_e: Some(Box::new(Upper)),
        from_method_ed: None,
        to_method_c: None,
        from_method_cd: None,
    };
    let mut p = b"abc".to_vec();
    assert!(t.transform(true, &mut p).is_ok());
    assert_eq!(p, b"ABC".to_vec());
    let mut q = b"abc".to_vec();
    assert!(t.transform(false, &mut q).is_err());
    assert_eq!(q, b"abc".to_vec());
}
