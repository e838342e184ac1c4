use ring::curve::{Curve, Point};
use ring::digest::{digest, DigestAlgorithm};
use ring::ops::{is_on_curve, point_mul, point_mul_base, point_sum, scalar_inv, scalar_mul};

fn from_hex(s: &str) -> Vec<u8> {
    hex::decode(s).unwrap()
}

fn point(x: &str, y: &str) -> Point {
    Point { x: from_hex(x), y: from_hex(y) }
}

const P256_GX: &str = "6b17d1f2e12c4247f8bce6e563a440f277037d812deb33a0f4a13945d898c296";
const P256_GY: &str = "4fe342e2fe1a7f9b8ee7eb4a7c0f9e162bce33576b315ececbb6406837bf51f5";
const P384_GX: &str = "aa87ca22be8b05378eb1c71ef320ad746e1d3b628ba79b9859f741e082542a385502f25dbf55296c3a545e3872760ab7";
const P384_GY: &str = "3617de4a96262c6f5d9e98bf9292dc29f8f41dbd289a147ce9da3113b5f0b8c00a60b1ce1d7e819d7a431d7c90ea0e5f";

#[test]
fn scalar_mul_is_the_product_mod_n() {
    let a = from_hex("73ab48767734d7c1c7fde805ec99108ddb5b5fab8f4d3e27dda1494c73cf256e");
    let b = from_hex("79cb9e86830c71c2cdcc69292f45e678309d6b79965eda32dae445508201e2be");
    assert_eq!(scalar_mul(Curve::P256, &a, &b), from_hex("74e2ed28ede7f0c1d882e8b7c5fbb7a28acfbd91f3ad313c57ae8133ee371fe6"));
    let a = from_hex("e3eff9c0cf44dd3f89e7d15f17362f25244caf9c4dabb4817253edc6181879932fa91425cb0088539d2c67eda13ffe7a");
    let b = from_hex("a66b0d389d95847ebd299753a767779673f778aaf6fa5db8656abd72fb710734986e86cb0ab8ab67a26b7f62b1852f28");
    assert_eq!(scalar_mul(Curve::P384, &a, &b), from_hex("c7d00874ea16b107049c19d98414a90be8df90f7c316a01b1a6cc116b2a7a5b20405284aa5d5cc50880508e0deaef933"));
}

#[test]
fn scalar_inv_is_the_inverse_mod_n() {
    let a = from_hex("73ab48767734d7c1c7fde805ec99108ddb5b5fab8f4d3e27dda1494c73cf256e");
    assert_eq!(scalar_inv(Curve::P256, &a), from_hex("463e73c21dd7e31a7ec1b4ae2d051c45eac5ba9a54181803ec2fc619d0bd918f"));
    let a = from_hex("e3eff9c0cf44dd3f89e7d15f17362f25244caf9c4dabb4817253edc6181879932fa91425cb0088539d2c67eda13ffe7a");
    assert_eq!(scalar_inv(Curve::P384, &a), from_hex("d08c6f2327bc96094379dc48f85231171549cac2887c2b7f1a1a66f04405dc3ee2eb9143ae1b8939ceb692fb62141426"));
}

#[test]
fn point_mul_base_multiplies_the_generator() {
    let p = point_mul_base(Curve::P256, &from_hex("09208a650f3ebdd3102b938b8743feb6d4ea65d003d716849f8558a628518868")).unwrap();
    assert_eq!(p.x, from_hex("52ba23f378b0b0f71010e9fb09b13f9fdb36da00654aa158cd91b7f19ddf6954"));
    assert_eq!(p.y, from_hex("0fbdbfc4c4db3343c94291435bee4363c712e2cad112cdb0fbd48993888b5342"));
    let p = point_mul_base(Curve::P384, &from_hex("15c1d2dfa9964aef012d0ea67ff122294b4d8474a3ea284d3bd0334684e55160320094ead7a94ded97491e2370c6a5b9")).unwrap();
    assert_eq!(p.x, from_hex("ffc0793aca361867efda1272c298bdca954f072878c91b202300e413517ac143b34f62053d4a76767cb5515aa7faa545"));
    assert_eq!(p.y, from_hex("b3816c9a023d78050a08928b6d8a9105929fd91923ad471aa0a7e78f2aebc4aabeba79df322cda9d6aa60f9464c82601"));
    assert!(point_mul_base(Curve::P256, &[0u8; 32]).is_none());
}

#[test]
fn point_mul_multiplies_the_point() {
    let p = point("52ba23f378b0b0f71010e9fb09b13f9fdb36da00654aa158cd91b7f19ddf6954", "0fbdbfc4c4db3343c94291435bee4363c712e2cad112cdb0fbd48993888b5342");
    let q = point_mul(Curve::P256, &from_hex("5387f61376c468aec7321cc007b37e14998092253deffa38e12b2b8f30b17d0c"), &p).unwrap();
    assert_eq!(q.x, from_hex("99553e07b5619ca8cdce403687178693d38f2ad3760ff4fc1b5621a8f1435bd9"));
    assert_eq!(q.y, from_hex("d700ed5769f8518c26561f1c41dca3062a9da083acccc6d12c796cf0f0a6bb0a"));
    let mut one = vec![0u8; 48];
    one[47] = 1;
    let g = point(P384_GX, P384_GY);
    let q = point_mul(Curve::P384, &one, &g).unwrap();
    assert_eq!(q.x, from_hex(P384_GX));
}

#[test]
fn point_sum_adds_points() {
    let p = point("52ba23f378b0b0f71010e9fb09b13f9fdb36da00654aa158cd91b7f19ddf6954", "0fbdbfc4c4db3343c94291435bee4363c712e2cad112cdb0fbd48993888b5342");
    let g = point(P256_GX, P256_GY);
    let s = point_sum(Curve::P256, Some(p), Some(g)).unwrap();
    assert_eq!(s.x, from_hex("c063bd800439ffb3e5098795d8e69e9194e5a5ffb358207b681ce63ea6770f7a"));
    assert_eq!(s.y, from_hex("2ff822c15dce359db35af8593374e5f19d85132e909586aecca45d5459571d3f"));
    // The point at infinity is the identity.
    let g = point(P256_GX, P256_GY);
    let s = point_sum(Curve::P256, None, Some(g)).unwrap();
    assert_eq!(s.x, from_hex(P256_GX));
    assert!(point_sum(Curve::P256, None, None).is_none());
    // G + (-G) is the point at infinity.
    let g = point(P256_GX, P256_GY);
    let neg_g = point(P256_GX, "b01cbd1c01e58065711814b583f061e9d431cca994cea1313449bf97c840ae0a");
    assert!(point_sum(Curve::P256, Some(g), Some(neg_g)).is_none());
}

#[test]
fn is_on_curve_checks_the_equation() {
    assert!(is_on_curve(Curve::P256, &from_hex(P256_GX), &from_hex(P256_GY)));
    assert!(is_on_curve(Curve::P384, &from_hex(P384_GX), &from_hex(P384_GY)));
    let mut y = from_hex(P256_GY);
    y[31] ^= 1;
    assert!(!is_on_curve(Curve::P256, &from_hex(P256_GX), &y));
    // A coordinate of q or above is not a field element.
    assert!(!is_on_curve(Curve::P256, &[0xffu8; 32], &from_hex(P256_GY)));
}

#[test]
fn digest_computes_the_algorithms() {
    assert_eq!(digest(DigestAlgorithm::Sha1, b"abc"), from_hex("a9993e364706816aba3e25717850c26c9cd0d89d"));
    assert_eq!(digest(DigestAlgorithm::Sha256, b"abc"), from_hex("ba7816bf8f01cfea414140de5dae2223b00361a396177a9cb410ff61f20015ad"));
    assert_eq!(digest(DigestAlgorithm::Sha384, b"abc"), from_hex("cb00753f45a35e8bb5a03d699ac65007272c32ab0eded1631a8b605a43ff5bed8086072ba1e7cc2358baeca134c825a7"));
    assert_eq!(digest(DigestAlgorithm::Sha512, b"abc"), from_hex("ddaf35a193617abacc417349ae20413112e6fa4e89a97ea20a9eeee64b55d39a2192992a274fc1a836ba3c23a3feebbd454d4423643ce80e2a9ac94fa54ca49f"));
    assert_eq!(digest(DigestAlgorithm::Sha256, b""), from_hex("e3b0c44298fc1c149afbf4c8996fb92427ae41e4649b934ca495991b7852b855"));
}
