use pki_trust::algorithm::SignatureAlgorithm;
use pki_trust::certificate::Certificate;
use pki_trust::signature::{failure_message, verdict, verify_signature, VerifyError};

const RSA_SHA256: &str = "308202fb308201e3a003020102020204e8300d06092a864886f70d01010b050030153113301106035504030c0a525341 \
     205348413235363020170d3236313032383031343731395a180f32313236313030343031343731395a30153113301106 \
     035504030c0a5253412053484132353630820122300d06092a864886f70d01010105000382010f003082010a02820101 \
     00d73e1385c2345d5013efb60ab93f14058123a255a66672a39af6a7195c37155c467b9e79d6195b69eaaad02d226aee \
     fa20cf3e1778b60c4bd48e21f885afa6ba0bccba06a60cba231cfc86605ee1fcf10a47ad4c86ee6e4c6b5d0445951ec4 \
     5d7dddd7d7825d72734e10e396c7ab86e4b230f213c627962e8964a5a32e38b66d057ad0b41efaa2e7c6981f10e8b066 \
     343cb69340ea0cd59a7270efa3e06bc30840c4ddc495ba2bf9a3357f5f5ada6f55af3f78dcd1bc9c723ca2591f1e3938 \
     b4bab907b49a3c51a596ce3f81e97539ac3622e27f15969bc5f8cf6340831a7018d9ce804ded7de819993a60a41fcd17 \
     d6fef15b10d75f1e165d28d4b14ee53ff50203010001a3533051301d0603551d0e041604146a497e40efefa7aeec8ee9 \
     1a9470f94abf7f5c1e301f0603551d230418301680146a497e40efefa7aeec8ee91a9470f94abf7f5c1e300f0603551d \
     130101ff040530030101ff300d06092a864886f70d01010b05000382010100289be0fe104136e22eb2d65bfafeb44a49 \
     2c7765ec75e4519e890b998b70d8caf68818d643987b71849a66c57350f7a0f2648ba830b1e931648e5fc76b29c48ff5 \
     4afec7289311676e649468fc4787d76236855d2970842b8f1ea373fe3bf21c090501f1dda22995c576e836fe5956ba4d \
     bcf023ae2ecc669e0f729918ccb282a394d7f7aecd80107df127a2982db73e996eda66396d59afd59257696f28e45932 \
     dcf45cf087d738a2f84d931b9925bb27ea6219642cf680651d25554ed427412efa5d235c09b237a20a4043bab1291fd2 \
     609ae2d76dbc04727932fff2541a1ce219c314506a920588bdafcb3c6b83d1e363870689549710bf13050b7fb4c5e1";
const RSA_SHA384: &str = "308202fb308201e3a00302010202020568300d06092a864886f70d01010c050030153113301106035504030c0a525341 \
     205348413338343020170d3236313032383031343731395a180f32313236313030343031343731395a30153113301106 \
     035504030c0a5253412053484133383430820122300d06092a864886f70d01010105000382010f003082010a02820101 \
     00d73e1385c2345d5013efb60ab93f14058123a255a66672a39af6a7195c37155c467b9e79d6195b69eaaad02d226aee \
     fa20cf3e1778b60c4bd48e21f885afa6ba0bccba06a60cba231cfc86605ee1fcf10a47ad4c86ee6e4c6b5d0445951ec4 \
     5d7dddd7d7825d72734e10e396c7ab86e4b230f213c627962e8964a5a32e38b66d057ad0b41efaa2e7c6981f10e8b066 \
     343cb69340ea0cd59a7270efa3e06bc30840c4ddc495ba2bf9a3357f5f5ada6f55af3f78dcd1bc9c723ca2591f1e3938 \
     b4bab907b49a3c51a596ce3f81e97539ac3622e27f15969bc5f8cf6340831a7018d9ce804ded7de819993a60a41fcd17 \
     d6fef15b10d75f1e165d28d4b14ee53ff50203010001a3533051301d0603551d0e041604146a497e40efefa7aeec8ee9 \
     1a9470f94abf7f5c1e301f0603551d230418301680146a497e40efefa7aeec8ee91a9470f94abf7f5c1e300f0603551d \
     130101ff040530030101ff300d06092a864886f70d01010c0500038201010023065ebe50d4a9c52a90335eb84109aa91 \
     f6ab54cb9b8a584a74dafb07fda218621e2eec0c58def850094d937ba6915c5e9914a57072a800bacc4ca199faa1f8bc \
     425b5b9290f5a40afebfe9fefdf8f050ec7389632fff4694ebe4a0b4a65a1292ae83515f67471af4ab76040c5a0c2625 \
     c1818d81d997544fd86a9102a9b62cb57bb1e6675c26849d57bd639f02f72ccfc2e1e1054afc73f700fb4a254ae10bf1 \
     39c9aa882b8eb5e4d03061ca4752c212e3d228f630005cca9581e04ab61b0e32d9d4519e8f0abd4b9d4de7d06f122c19 \
     eb719f2d43d3929bd7abecfe83a60abd9bc1d805f0b63586f9d306f2b5098873697716243132f05d5e5a4489c1b4f8";
const RSA_SHA512: &str = "308202fb308201e3a003020102020205e8300d06092a864886f70d01010d050030153113301106035504030c0a525341 \
     205348413531323020170d3236313032383031343731395a180f32313236313030343031343731395a30153113301106 \
     035504030c0a5253412053484135313230820122300d06092a864886f70d01010105000382010f003082010a02820101 \
     00d73e1385c2345d5013efb60ab93f14058123a255a66672a39af6a7195c37155c467b9e79d6195b69eaaad02d226aee \
     fa20cf3e1778b60c4bd48e21f885afa6ba0bccba06a60cba231cfc86605ee1fcf10a47ad4c86ee6e4c6b5d0445951ec4 \
     5d7dddd7d7825d72734e10e396c7ab86e4b230f213c627962e8964a5a32e38b66d057ad0b41efaa2e7c6981f10e8b066 \
     343cb69340ea0cd59a7270efa3e06bc30840c4ddc495ba2bf9a3357f5f5ada6f55af3f78dcd1bc9c723ca2591f1e3938 \
     b4bab907b49a3c51a596ce3f81e97539ac3622e27f15969bc5f8cf6340831a7018d9ce804ded7de819993a60a41fcd17 \
     d6fef15b10d75f1e165d28d4b14ee53ff50203010001a3533051301d0603551d0e041604146a497e40efefa7aeec8ee9 \
     1a9470f94abf7f5c1e301f0603551d230418301680146a497e40efefa7aeec8ee91a9470f94abf7f5c1e300f0603551d \
     130101ff040530030101ff300d06092a864886f70d01010d05000382010100c73a5da978faf890097166ed9aa3e26dd3 \
     5786cfac332c375f610e9f4ee207bd58f37acb077aa933730deaf0f0b20df8d9e4ec04e5150a012c74c95a08a7a2aaf7 \
     e5cce84b3ed4922c75211bd4897802339babe9b9c8395d287cd058c33486562f32dfe03f076213b3c4ea23c16bb7f812 \
     64d27b334728f79bf491069cc88c290c9f36ad604483a91954cfbe8b07a1c63e3ee037e0438a5b84754f4dd1ef981704 \
     55f33525e77eca7ab18bd0f3ede03b25bcd2a5d694486fc4413e478433576d099c2c47a3dc691aa824719df1b4cb28dc \
     fb07fc5ddb8ce79e5ad05f2757394e858f8fda21f34f93bd332633f7e35a7c6c4e8544eefb6b217af419f8c3fc24ce";
const P256_SHA256: &str = "3082016f30820116a003020102020101300a06082a8648ce3d04030230163114301206035504030c0b5465737420526f \
     6f7420523020170d3236313032383031343730355a180f32313236313030343031343730355a30163114301206035504 \
     030c0b5465737420526f6f7420523059301306072a8648ce3d020106082a8648ce3d0301070342000436824b31636a9b \
     c9d3dafeed4675968fd44d402c1092f998b58ce26e03fbd5218f9efd286aa598bf73eb5f5967b58cb16d8039536ec7ac \
     b20505fcdb897edad7a3533051301d0603551d0e04160414046b51b614a1bd095069e82fdca52cfe4eda3707301f0603 \
     551d23041830168014046b51b614a1bd095069e82fdca52cfe4eda3707300f0603551d130101ff040530030101ff300a \
     06082a8648ce3d0403020347003044021f2a3b2bac1926ae49b38ab71643550dcc8ce71e4bde6410b9f1364f418f5a67 \
     022100cf94d584369733baac8dcf48baf2a01dd0d11a9342434a6fd5f746c99f8d4c21";
const P384_SHA384: &str = "308201a030820126a00302010202020180300a06082a8648ce3d040303300f310d300b06035504030c04503338343020 \
     170d3236313032383031343731395a180f32313236313030343031343731395a300f310d300b06035504030c04503338 \
     343076301006072a8648ce3d020106052b810400220362000452cd9a20b078b8e6a68ae59d0bd31c9138b8e3583dcbb5 \
     0aac8fa7b6c9f4c43c4ba06505247c8875e0f189e24ff08235561d9857389a2b0ab0a5f6eb9932a3c7e6c21bb26e8325 \
     a0bb38d20851b3791c5189344e3b97c84eb33b0ea9bf088183a3533051301d0603551d0e04160414417d5d5f29bbb7d8 \
     85127a6209eea3e028052b5a301f0603551d23041830168014417d5d5f29bbb7d885127a6209eea3e028052b5a300f06 \
     03551d130101ff040530030101ff300a06082a8648ce3d0403030368003065023100a85733217e2f2691116a1462ccf5 \
     bd1d7da6a7d44d964b4a40e0b62aa966e8fe00946fd492904e1d08e24bd99f07fa6a023017a36db3c4984bdb110971da \
     719155831d5e55692ff78d8b61f924fc55ce231effa3f1c866a2717fe51ad720aed7d221";
const P521_SHA512: &str = "308201eb3082014ca00302010202020209300a06082a8648ce3d040304300f310d300b06035504030c04503532313020 \
     170d3236313032383031343731395a180f32313236313030343031343731395a300f310d300b06035504030c04503532 \
     3130819b301006072a8648ce3d020106052b81040023038186000400045131edff7971130684cb039de7e0395e0db1fb \
     2e4ef8e1f9a39613928bc5e44691fad4f2deac0077f8973b8b91cc4f1d7d26280e6630d4df27cc6d4cbe3764af01e351 \
     7e6192ca6eda8d6b55877e99d5e443bfe7e49e7fe92e0c74e944fb713cf195a1acdcd7afdef8e1eed0af5699c2d9fed2 \
     7884060f55382931a672cf9712f223a3533051301d0603551d0e04160414748482aaac80424b8d44ff43a5546e7fbe73 \
     1eb9301f0603551d23041830168014748482aaac80424b8d44ff43a5546e7fbe731eb9300f0603551d130101ff040530 \
     030101ff300a06082a8648ce3d04030403818c00308188024201d8979ed33699a76aff7230cd4695969563a0f209b3d6 \
     04df20e4719fe1e4588e416557418a6c4dad813abf3b346778dc0f627a635af5cebe6299b983a4afe718be0242014a64 \
     a2645f832c50231590cb7c8ca2733ac9d7b7f5bf8ebead7dcd545dbd75167b56b953309d323fffd6383b7d449a290375 \
     47b1079baf9b5516a144b3fd6afc1d";
const P256_SHA224: &str = "308201673082010da003020102020200e0300a06082a8648ce3d0403013011310f300d06035504030c06534841323234 \
     3020170d3236313032383031343731395a180f32313236313030343031343731395a3011310f300d06035504030c0653 \
     48413232343059301306072a8648ce3d020106082a8648ce3d0301070342000436824b31636a9bc9d3dafeed4675968f \
     d44d402c1092f998b58ce26e03fbd5218f9efd286aa598bf73eb5f5967b58cb16d8039536ec7acb20505fcdb897edad7 \
     a3533051301d0603551d0e04160414046b51b614a1bd095069e82fdca52cfe4eda3707301f0603551d23041830168014 \
     046b51b614a1bd095069e82fdca52cfe4eda3707300f0603551d130101ff040530030101ff300a06082a8648ce3d0403 \
     01034800304502205cf233da8f9f4e06c691d138eaae0035b4c5ec78890737d65e48d7973c58f95502210096f9cfad83 \
     a9466810c2b881d9aa2becdcf9d4c8c99f311f0fe04a34c6684b27";
const LEAF: &str = "308201753082011ba0030201020203010203300a06082a8648ce3d040302301e311c301a06035504030c135465737420 \
     496e7465726d65646961746520413020170d3236313032383031343730355a180f32313236313030343031343730355a \
     30173115301306035504030c0c6c6561662e6578616d706c653059301306072a8648ce3d020106082a8648ce3d030107 \
     03420004f71b2263427d53027a54270ac1a459cfe113a40eddf0abc8d226a856e038a412814c7ff89eb6dd6810a3ed92 \
     c41a4c4d2125e50f0afe2ceac33ab0840b4c6431a34d304b30090603551d1304023000301d0603551d0e04160414dfbc \
     8df1000a258617d9be42c8a8b6227e86dc34301f0603551d23041830168014d4c6f4d2e4dd22cf4bc78478e73f714543 \
     b63200300a06082a8648ce3d040302034800304502206f7b477f2ebb522d25e372c84b1689540d5eb86ae52296bd9977 \
     9917bd5b20bf022100abdec40b25fa0d037a6ad7595f934910a943a30fa61fa365d5ae0e413afac8db";
const INTERMEDIATE: &str = "308201883082012ea003020102020102300a06082a8648ce3d04030230163114301206035504030c0b5465737420526f \
     6f7420523020170d3236313032383031343730355a180f32313236313030343031343730355a301e311c301a06035504 \
     030c135465737420496e7465726d65646961746520413059301306072a8648ce3d020106082a8648ce3d030107034200 \
     0482282936e0eb11068dbee03ad8ff8b77455d568bac7901277a786ea8c69d50b37316f5e58e6c00c0caf795f1497dbf \
     9e55ad426fde3c9198dd2fdaed66c90243a3633061300f0603551d130101ff040530030101ff300e0603551d0f0101ff \
     040403020106301d0603551d0e04160414d4c6f4d2e4dd22cf4bc78478e73f714543b63200301f0603551d2304183016 \
     8014046b51b614a1bd095069e82fdca52cfe4eda3707300a06082a8648ce3d040302034800304502200fef78eade2c18 \
     7d84bc20fbae131236a474082f4046e047c29dc348832c7f9a022100ed1e92b5433166daa9e8e4d8d679362daa13fe80 \
     706b962f37153b4526f18a53";

fn hex(text: &str) -> Vec<u8> {
    let digits: Vec<u32> = text.chars().filter_map(|c| c.to_digit(16)).collect();
    digits.chunks(2).map(|pair| (pair[0] * 16 + pair[1]) as u8).collect()
}

fn decoded(text: &str) -> Certificate {
    Certificate::from_der(&hex(text)).expect("the certificate decodes")
}

fn self_check(text: &str) -> Result<(), VerifyError> {
    let certificate = decoded(text);
    verify_signature(
        &certificate.signed.tbs,
        &certificate.signed.signature,
        &certificate.signed.algorithm_id,
        &certificate.signed.public_key,
    )
}

fn altered(bytes: &[u8], position: usize) -> Vec<u8> {
    let mut copy = bytes.to_vec();
    copy[position] ^= 0x01;
    copy
}

fn accepts_own_signature_and_rejects_alterations(text: &str, algorithm: SignatureAlgorithm) {
    let certificate = decoded(text);
    let parts = &certificate.signed;
    assert_eq!(parts.algorithm_id, algorithm.identifier());
    assert_eq!(
        verify_signature(&parts.tbs, &parts.signature, &parts.algorithm_id, &parts.public_key),
        Ok(())
    );
    let failed = Err(VerifyError::VerificationFailed(algorithm));
    let middle = parts.tbs.len() / 2;
    assert_eq!(
        verify_signature(
            &altered(&parts.tbs, middle),
            &parts.signature,
            &parts.algorithm_id,
            &parts.public_key
        ),
        failed
    );
    let last = parts.signature.len() - 1;
    assert_eq!(
        verify_signature(
            &parts.tbs,
            &altered(&parts.signature, last),
            &parts.algorithm_id,
            &parts.public_key
        ),
        failed
    );
    let last = parts.public_key.len() - 1;
    assert_eq!(
        verify_signature(
            &parts.tbs,
            &parts.signature,
            &parts.algorithm_id,
            &altered(&parts.public_key, last)
        ),
        failed
    );
    assert_eq!(
        verify_signature(&parts.tbs, &[], &parts.algorithm_id, &parts.public_key),
        failed
    );
    assert_eq!(verify_signature(&parts.tbs, &parts.signature, &parts.algorithm_id, &[]), failed);
}

#[test]
fn rsa_sha256_signature_is_verified() {
    accepts_own_signature_and_rejects_alterations(RSA_SHA256, SignatureAlgorithm::RsaPkcs1Sha256);
}

#[test]
fn rsa_sha384_signature_is_verified() {
    accepts_own_signature_and_rejects_alterations(RSA_SHA384, SignatureAlgorithm::RsaPkcs1Sha384);
}

#[test]
fn rsa_sha512_signature_is_verified() {
    accepts_own_signature_and_rejects_alterations(RSA_SHA512, SignatureAlgorithm::RsaPkcs1Sha512);
}

#[test]
fn ecdsa_p256_signature_is_verified() {
    accepts_own_signature_and_rejects_alterations(P256_SHA256, SignatureAlgorithm::EcdsaP256Sha256);
}

#[test]
fn ecdsa_p384_signature_is_verified() {
    accepts_own_signature_and_rejects_alterations(P384_SHA384, SignatureAlgorithm::EcdsaP384Sha384);
}

#[test]
fn ecdsa_p521_signature_is_verified() {
    accepts_own_signature_and_rejects_alterations(P521_SHA512, SignatureAlgorithm::EcdsaP521Sha512);
}

#[test]
fn issuer_key_verifies_the_issued_certificate_only() {
    let leaf = decoded(LEAF);
    let issuer = decoded(INTERMEDIATE);
    let stranger = decoded(P256_SHA256);
    assert_eq!(
        verify_signature(
            &leaf.signed.tbs,
            &leaf.signed.signature,
            &leaf.signed.algorithm_id,
            &issuer.signed.public_key
        ),
        Ok(())
    );
    assert_eq!(
        verify_signature(
            &leaf.signed.tbs,
            &leaf.signed.signature,
            &leaf.signed.algorithm_id,
            &leaf.signed.public_key
        ),
        Err(VerifyError::VerificationFailed(SignatureAlgorithm::EcdsaP256Sha256))
    );
    assert_eq!(
        verify_signature(
            &issuer.signed.tbs,
            &issuer.signed.signature,
            &issuer.signed.algorithm_id,
            &stranger.signed.public_key
        ),
        Ok(())
    );
}

#[test]
fn key_of_another_scheme_fails_verification() {
    let rsa = decoded(RSA_SHA256);
    let curve = decoded(P256_SHA256);
    assert_eq!(
        verify_signature(
            &rsa.signed.tbs,
            &rsa.signed.signature,
            &rsa.signed.algorithm_id,
            &curve.signed.public_key
        ),
        Err(VerifyError::VerificationFailed(SignatureAlgorithm::RsaPkcs1Sha256))
    );
    assert_eq!(
        verify_signature(
            &rsa.signed.tbs,
            &rsa.signed.signature,
            "1.2.840.113549.1.1.12",
            &rsa.signed.public_key
        ),
        Err(VerifyError::VerificationFailed(SignatureAlgorithm::RsaPkcs1Sha384))
    );
}

#[test]
fn unregistered_identifier_is_unsupported() {
    assert_eq!(self_check(P256_SHA224), Err(VerifyError::UnsupportedAlgorithm));
    let certificate = decoded(P256_SHA224);
    assert_eq!(certificate.signed.algorithm_id, "1.2.840.10045.4.3.1");
    let valid = decoded(P256_SHA256);
    for identifier in [
        "",
        "1.2.3",
        "1.2.840.113549.1.1.5",
        "1.2.840.113549.1.1.1",
        "1.2.840.113549.1.1.11 ",
        " 1.2.840.113549.1.1.11",
        "1.2.840.113549.1.1.110",
        "1.2.840.10045.4.3",
        "1.3.101.112",
        "sha256WithRSAEncryption",
    ] {
        assert_eq!(
            verify_signature(
                &valid.signed.tbs,
                &valid.signed.signature,
                identifier,
                &valid.signed.public_key
            ),
            Err(VerifyError::UnsupportedAlgorithm)
        );
        assert_eq!(
            verify_signature(&[], &[], identifier, &[]),
            Err(VerifyError::UnsupportedAlgorithm)
        );
    }
}

#[test]
fn verdict_follows_the_primitive() {
    assert_eq!(verdict(SignatureAlgorithm::RsaPkcs1Sha256, true), Ok(()));
    assert_eq!(
        verdict(SignatureAlgorithm::EcdsaP384Sha384, false),
        Err(VerifyError::VerificationFailed(SignatureAlgorithm::EcdsaP384Sha384))
    );
}

#[test]
fn failure_messages_name_the_identifier_or_the_algorithm() {
    assert_eq!(
        failure_message(VerifyError::UnsupportedAlgorithm, "1.2.840.10045.4.3.1"),
        "unsupported signature algorithm: 1.2.840.10045.4.3.1"
    );
    assert_eq!(
        failure_message(
            VerifyError::VerificationFailed(SignatureAlgorithm::RsaPkcs1Sha256),
            "1.2.840.113549.1.1.11"
        ),
        "signature verification failed: RSA+SHA256"
    );
    assert_eq!(
        failure_message(
            VerifyError::VerificationFailed(SignatureAlgorithm::EcdsaP521Sha512),
            "ignored"
        ),
        "signature verification failed: ECDSA P-521+SHA512"
    );
}
