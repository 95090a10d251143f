//! Tokens end to end: signed by a generator, read back and validated the way
//! a validator decodes them, with the keyserver answered from memory.

use asap::claims::{Aud, Claims, DEFAULT_TOKEN_LIFESPAN};
use asap::errors::AsapError;
use asap::generator::{generate_token, Generator};
use asap::json::{ClaimMap, ClaimValue};
use asap::jwt::PublicKey;
use asap::keyserver::{key_url, request_failure, Error as KeyserverError, KeyLookup};
use asap::util::convert_pem_to_der;
use asap::validator::{key_from_keyserver, read_header, Validator, ValidatorBuilder};
use serde_json::Value;

// A DER-encoded RSA key pair made for these tests, and the public half of
// another pair.
const SIGNING_KEY_01: &[u8] = &[
    0x30, 0x82, 0x04, 0xa3, 0x02, 0x01, 0x00, 0x02, 0x82, 0x01, 0x01, 0x00, 0xd0, 0x61, 0x0a, 0x98,
    0x30, 0x4e, 0x7f, 0x33, 0xbd, 0x5d, 0xcf, 0x2d, 0xaf, 0x09, 0x34, 0xd5, 0x98, 0x67, 0xa6, 0xed,
    0xe5, 0xc4, 0x6a, 0xe4, 0xbe, 0x2a, 0x70, 0x58, 0x7b, 0xfb, 0xed, 0x5b, 0xd4, 0x16, 0x56, 0x3a,
    0x43, 0x15, 0x04, 0x5f, 0x3b, 0xb3, 0x37, 0xb7, 0x14, 0xe6, 0x8f, 0xe1, 0x67, 0x8e, 0x4c, 0x8e,
    0x5a, 0x4f, 0xfc, 0xe7, 0xb0, 0xe1, 0x87, 0x48, 0xeb, 0x56, 0xe1, 0x49, 0x67, 0x5d, 0x5a, 0x5e,
    0xdf, 0x70, 0x85, 0x85, 0x88, 0x2d, 0x21, 0x41, 0x4d, 0x51, 0xb1, 0xb3, 0xc3, 0xcc, 0x89, 0xaa,
    0xb7, 0xc1, 0x03, 0xa3, 0x84, 0xf0, 0x90, 0x0b, 0xbc, 0x7e, 0x5e, 0xda, 0x95, 0xbb, 0x57, 0xd9,
    0xd8, 0xe3, 0xb6, 0x59, 0x6d, 0x70, 0x8c, 0x8c, 0xe1, 0x77, 0x79, 0x72, 0x8c, 0xd5, 0x4f, 0x78,
    0x54, 0xeb, 0x7d, 0xff, 0xda, 0xd5, 0x82, 0x5d, 0x48, 0x5d, 0x5e, 0x32, 0xe4, 0x4c, 0x8b, 0x39,
    0x31, 0x06, 0xb7, 0x6d, 0x2d, 0x1b, 0xe0, 0xcf, 0x23, 0xf0, 0xf3, 0x91, 0xaf, 0x0d, 0x93, 0xa3,
    0x3c, 0x5b, 0x1d, 0x24, 0xf2, 0x7b, 0xe1, 0x53, 0x4c, 0x75, 0xa9, 0xa9, 0x3b, 0xc6, 0x61, 0xcb,
    0xab, 0xe5, 0xfc, 0x17, 0x78, 0x90, 0x91, 0xf3, 0x28, 0x28, 0x79, 0x36, 0x37, 0x4f, 0x38, 0xf7,
    0xd1, 0x0c, 0x49, 0xcd, 0x2f, 0x83, 0x57, 0x28, 0x77, 0xaf, 0x24, 0xec, 0x21, 0xd7, 0xf8, 0x9a,
    0x2e, 0x78, 0x0f, 0xdd, 0xf6, 0x7e, 0x3f, 0xb9, 0x52, 0x9d, 0x95, 0x34, 0xd7, 0xa0, 0x7a, 0xb3,
    0x60, 0x6e, 0x63, 0x35, 0x31, 0x4e, 0x16, 0x0d, 0x11, 0x83, 0xbe, 0x78, 0x14, 0x10, 0x5a, 0x2f,
    0x2c, 0x7a, 0xd5, 0x7b, 0x53, 0x1a, 0xee, 0xc3, 0x05, 0x55, 0x64, 0xbe, 0x4c, 0x83, 0x8b, 0x48,
    0x3b, 0x97, 0xd7, 0xe0, 0x29, 0x6b, 0x3b, 0xa6, 0xbc, 0x92, 0x70, 0xc5, 0x02, 0x03, 0x01, 0x00,
    0x01, 0x02, 0x82, 0x01, 0x00, 0x0e, 0x26, 0xd6, 0x59, 0x86, 0x9d, 0x00, 0xce, 0x35, 0x3e, 0xa1,
    0x3a, 0xe3, 0x87, 0xcc, 0x5d, 0x9d, 0xe2, 0x45, 0x8d, 0x23, 0x8d, 0x1c, 0x36, 0x03, 0xba, 0x38,
    0x73, 0x5c, 0x9c, 0x3b, 0xe9, 0xaa, 0xca, 0x32, 0x39, 0xf6, 0x63, 0x54, 0xd9, 0x83, 0x8c, 0x44,
    0xd7, 0x90, 0xba, 0x50, 0x81, 0x88, 0xe4, 0x64, 0xf6, 0x47, 0xfe, 0x3b, 0x03, 0xf5, 0xd8, 0x78,
    0x8a, 0x6f, 0x12, 0x86, 0x98, 0xa8, 0x70, 0x9d, 0x1a, 0x13, 0x5c, 0xfe, 0x1c, 0x6c, 0x51, 0x50,
    0x50, 0x5c, 0x88, 0x14, 0xa4, 0x4b, 0x98, 0x61, 0x03, 0x1b, 0x43, 0xfc, 0x53, 0x71, 0xcc, 0x5a,
    0xa4, 0x09, 0x68, 0x4b, 0x03, 0x2c, 0xfc, 0x67, 0xac, 0xcf, 0xaa, 0x36, 0x05, 0xf5, 0xc4, 0xee,
    0x84, 0x04, 0xd8, 0xa0, 0x82, 0xb3, 0x3b, 0x80, 0xbb, 0x00, 0x88, 0x16, 0x6b, 0x0c, 0x0e, 0xc8,
    0x5c, 0x93, 0x1f, 0xba, 0xd8, 0x0f, 0x92, 0xde, 0xfc, 0x65, 0x84, 0x65, 0x23, 0xd1, 0x59, 0xe7,
    0x1a, 0xa8, 0xfa, 0xda, 0x36, 0xbe, 0x0b, 0x82, 0x12, 0xfe, 0x3d, 0xa5, 0x0b, 0xab, 0xef, 0xd8,
    0xad, 0xd8, 0x35, 0x44, 0x02, 0xc6, 0xb8, 0xa4, 0x8c, 0xce, 0xd4, 0xfc, 0xde, 0x9f, 0x8b, 0x31,
    0x75, 0x0e, 0x9c, 0x6e, 0x4f, 0xe1, 0xb4, 0x8d, 0x48, 0xeb, 0x6e, 0xbe, 0xda, 0x58, 0x32, 0xe4,
    0x81, 0x9b, 0xd5, 0x0b, 0xd5, 0x24, 0x79, 0x28, 0x1d, 0xe7, 0x75, 0x10, 0x6b, 0x19, 0xa4, 0xe6,
    0x77, 0x7a, 0xa8, 0x6d, 0x53, 0xa0, 0x7d, 0x1e, 0x3f, 0xe7, 0xcc, 0x7e, 0x63, 0x64, 0x88, 0x7c,
    0xec, 0x3e, 0x67, 0xe5, 0x82, 0x31, 0x2d, 0x76, 0xe0, 0x40, 0x14, 0xed, 0x2d, 0x37, 0xd2, 0x17,
    0x68, 0x3e, 0xba, 0x0f, 0xd6, 0x49, 0x82, 0xde, 0x96, 0xa3, 0x18, 0xc5, 0xe9, 0x29, 0x8c, 0xc7,
    0xf5, 0x92, 0xcf, 0xe0, 0x53, 0x02, 0x81, 0x81, 0x00, 0xef, 0x15, 0xda, 0x32, 0x67, 0x38, 0x50,
    0x88, 0x16, 0x72, 0x78, 0x14, 0x7e, 0x0e, 0x1f, 0xfe, 0xa5, 0x6a, 0x0f, 0xef, 0x4e, 0xee, 0xab,
    0xdd, 0xc6, 0xb3, 0x62, 0x74, 0x53, 0x77, 0xe6, 0xdf, 0xb9, 0x6e, 0xfc, 0xb7, 0x57, 0x59, 0x64,
    0x1e, 0x28, 0xa0, 0x7c, 0xb3, 0x75, 0xb6, 0x4d, 0xe5, 0x2d, 0x83, 0x1e, 0x8b, 0xa2, 0xa9, 0x83,
    0x29, 0x0f, 0x48, 0x4a, 0xb5, 0x5a, 0x18, 0x3b, 0xa0, 0xeb, 0x9f, 0xe2, 0x63, 0x18, 0xc2, 0x73,
    0x3b, 0x4d, 0x49, 0x0a, 0x97, 0x07, 0xd0, 0xaf, 0x1c, 0x7a, 0xf2, 0x1a, 0xf3, 0x73, 0x7d, 0xf3,
    0x9a, 0x45, 0x88, 0xc8, 0x1b, 0x62, 0x12, 0x4e, 0x00, 0x44, 0x33, 0xd9, 0x4b, 0xd8, 0x0b, 0x61,
    0x25, 0x4a, 0xcc, 0x5d, 0xe2, 0x18, 0x18, 0xac, 0xf2, 0xb4, 0x81, 0x42, 0xad, 0x46, 0x6b, 0xff,
    0x62, 0x83, 0xca, 0xfb, 0x86, 0xe0, 0x8b, 0x48, 0xd7, 0x02, 0x81, 0x81, 0x00, 0xdf, 0x1f, 0x0e,
    0xdc, 0x37, 0x39, 0xcc, 0x01, 0xf6, 0x75, 0x63, 0x22, 0xff, 0xad, 0xf0, 0x0f, 0x25, 0x27, 0xec,
    0x0c, 0x7c, 0x69, 0xcf, 0x19, 0x6d, 0x35, 0x45, 0xf9, 0xb2, 0x26, 0xff, 0x6f, 0xce, 0x9f, 0xa3,
    0xe1, 0xae, 0xf7, 0xf5, 0x11, 0xa0, 0xbd, 0xb5, 0x15, 0xaa, 0xc9, 0x8a, 0xdd, 0x15, 0x15, 0x86,
    0x4e, 0xba, 0xba, 0x6a, 0x79, 0x59, 0x66, 0x19, 0x1f, 0x61, 0x31, 0x33, 0x9d, 0x4f, 0x4c, 0x71,
    0x56, 0x99, 0x9b, 0xa8, 0xd6, 0xba, 0xce, 0xe0, 0xbb, 0xf6, 0x32, 0xa3, 0x64, 0x21, 0xee, 0xaa,
    0x28, 0x16, 0x2c, 0xe2, 0xaf, 0x46, 0xec, 0x61, 0x64, 0x0a, 0x23, 0xce, 0x32, 0x6c, 0xff, 0xce,
    0x72, 0x85, 0x89, 0x10, 0x44, 0x4c, 0x50, 0x1b, 0x15, 0x3d, 0x97, 0x24, 0x1e, 0x61, 0x28, 0x3a,
    0xcf, 0x73, 0x65, 0xf0, 0x0e, 0xb5, 0x39, 0xdc, 0x0b, 0x08, 0x3e, 0x13, 0xc3, 0x02, 0x81, 0x80,
    0x65, 0xbd, 0xe5, 0xe1, 0xc7, 0x1d, 0x26, 0xe0, 0x12, 0xb5, 0x59, 0xb6, 0x56, 0xc2, 0x4a, 0x09,
    0x42, 0x79, 0x35, 0x18, 0xc0, 0x7d, 0x3e, 0xb4, 0x1c, 0xe7, 0x9f, 0x81, 0x23, 0x38, 0x06, 0x0e,
    0xb4, 0xc9, 0xaf, 0x4f, 0x92, 0x23, 0x5f, 0x40, 0x9a, 0x47, 0x59, 0x69, 0xc1, 0x30, 0xf8, 0x4b,
    0x0b, 0xa8, 0x1d, 0xaa, 0x8c, 0x69, 0x18, 0x80, 0xb3, 0x99, 0x2e, 0xf9, 0xa7, 0xc2, 0x62, 0x35,
    0xa3, 0xaf, 0xa1, 0x56, 0x4c, 0x66, 0x0b, 0x45, 0x74, 0x29, 0x1e, 0x11, 0x91, 0x68, 0xd3, 0xec,
    0x09, 0xc1, 0xd7, 0x88, 0x3c, 0x60, 0x9f, 0xf6, 0xc9, 0x9a, 0x60, 0x95, 0x8e, 0x91, 0x7d, 0x92,
    0x0d, 0x74, 0x07, 0x07, 0x88, 0x83, 0xa7, 0x2e, 0x88, 0x7b, 0x19, 0x84, 0xaa, 0x7e, 0x6d, 0xb2,
    0xc6, 0xef, 0xae, 0xe1, 0x2f, 0xf3, 0xab, 0x75, 0x4f, 0xe2, 0x64, 0x51, 0x4c, 0x62, 0xd9, 0x77,
    0x02, 0x81, 0x81, 0x00, 0xc8, 0x81, 0x52, 0x8b, 0x57, 0x1d, 0x9b, 0x55, 0x50, 0x33, 0xa1, 0x49,
    0x3c, 0x57, 0x04, 0xd9, 0xb7, 0x5c, 0x2e, 0xe5, 0xf1, 0x8f, 0xec, 0x4a, 0x3f, 0x37, 0x96, 0x90,
    0x93, 0x26, 0x34, 0x7a, 0x37, 0x46, 0x82, 0xb1, 0x36, 0xd9, 0x20, 0xe4, 0x1c, 0x7d, 0x1e, 0x94,
    0x40, 0x0c, 0x29, 0xbc, 0x0f, 0x4c, 0x6e, 0x8b, 0xa5, 0x86, 0x0c, 0x54, 0xcc, 0x9f, 0xd1, 0x87,
    0xbf, 0x81, 0xc5, 0x8e, 0x62, 0x4a, 0xa1, 0xb7, 0x5f, 0x06, 0xe1, 0x2d, 0x46, 0x66, 0xce, 0xd2,
    0x5a, 0xa6, 0x9a, 0xea, 0x4b, 0x0b, 0xfc, 0xe1, 0x55, 0x3c, 0x34, 0xe1, 0xaa, 0x6c, 0x96, 0x00,
    0x9e, 0x94, 0x1a, 0xa2, 0x7a, 0x0d, 0x4f, 0x6a, 0xde, 0xd1, 0x93, 0x4a, 0xad, 0x01, 0x77, 0xb5,
    0x18, 0xca, 0x0f, 0xed, 0x35, 0x06, 0x40, 0x03, 0x59, 0x02, 0x8c, 0x3d, 0xcb, 0x62, 0x19, 0x79,
    0xd8, 0x88, 0x60, 0x9d, 0x02, 0x81, 0x80, 0x29, 0x39, 0xb2, 0xec, 0x69, 0x47, 0x4e, 0x3e, 0x64,
    0x3f, 0xae, 0x2a, 0x33, 0x14, 0x40, 0x2b, 0x3b, 0xf6, 0x00, 0x30, 0xb5, 0x0a, 0x49, 0x7c, 0x98,
    0xd1, 0x0e, 0x15, 0x82, 0x09, 0x6b, 0x84, 0xf0, 0xb2, 0x90, 0x2d, 0xa9, 0x4e, 0x12, 0x3c, 0x60,
    0xad, 0x7f, 0xc8, 0x92, 0x81, 0x49, 0xcd, 0xdf, 0x40, 0x10, 0xd8, 0x46, 0x3d, 0x99, 0x1d, 0xf4,
    0x70, 0x9b, 0x44, 0xe8, 0x69, 0x2a, 0x52, 0x4b, 0x00, 0x13, 0xae, 0x00, 0xa3, 0xd9, 0x8a, 0x2b,
    0x11, 0xef, 0x85, 0xdc, 0xfe, 0x61, 0xe1, 0xbd, 0x1f, 0xbe, 0xe7, 0xfe, 0xb2, 0xb6, 0x0c, 0x88,
    0x50, 0xb8, 0x35, 0x8c, 0xd9, 0xb3, 0x8c, 0x8b, 0x11, 0x18, 0x19, 0x76, 0xa6, 0x82, 0xe0, 0xf6,
    0x17, 0x3f, 0x9c, 0x5d, 0x66, 0x79, 0xc0, 0x97, 0x6a, 0x58, 0x3a, 0x54, 0xa9, 0xa1, 0x2a, 0x3c,
    0x4e, 0x0c, 0xd9, 0x65, 0x83, 0x89, 0xe1,
];

const VERIFYING_KEY_01: &[u8] = &[
    0x30, 0x82, 0x01, 0x0a, 0x02, 0x82, 0x01, 0x01, 0x00, 0xd0, 0x61, 0x0a, 0x98, 0x30, 0x4e, 0x7f,
    0x33, 0xbd, 0x5d, 0xcf, 0x2d, 0xaf, 0x09, 0x34, 0xd5, 0x98, 0x67, 0xa6, 0xed, 0xe5, 0xc4, 0x6a,
    0xe4, 0xbe, 0x2a, 0x70, 0x58, 0x7b, 0xfb, 0xed, 0x5b, 0xd4, 0x16, 0x56, 0x3a, 0x43, 0x15, 0x04,
    0x5f, 0x3b, 0xb3, 0x37, 0xb7, 0x14, 0xe6, 0x8f, 0xe1, 0x67, 0x8e, 0x4c, 0x8e, 0x5a, 0x4f, 0xfc,
    0xe7, 0xb0, 0xe1, 0x87, 0x48, 0xeb, 0x56, 0xe1, 0x49, 0x67, 0x5d, 0x5a, 0x5e, 0xdf, 0x70, 0x85,
    0x85, 0x88, 0x2d, 0x21, 0x41, 0x4d, 0x51, 0xb1, 0xb3, 0xc3, 0xcc, 0x89, 0xaa, 0xb7, 0xc1, 0x03,
    0xa3, 0x84, 0xf0, 0x90, 0x0b, 0xbc, 0x7e, 0x5e, 0xda, 0x95, 0xbb, 0x57, 0xd9, 0xd8, 0xe3, 0xb6,
    0x59, 0x6d, 0x70, 0x8c, 0x8c, 0xe1, 0x77, 0x79, 0x72, 0x8c, 0xd5, 0x4f, 0x78, 0x54, 0xeb, 0x7d,
    0xff, 0xda, 0xd5, 0x82, 0x5d, 0x48, 0x5d, 0x5e, 0x32, 0xe4, 0x4c, 0x8b, 0x39, 0x31, 0x06, 0xb7,
    0x6d, 0x2d, 0x1b, 0xe0, 0xcf, 0x23, 0xf0, 0xf3, 0x91, 0xaf, 0x0d, 0x93, 0xa3, 0x3c, 0x5b, 0x1d,
    0x24, 0xf2, 0x7b, 0xe1, 0x53, 0x4c, 0x75, 0xa9, 0xa9, 0x3b, 0xc6, 0x61, 0xcb, 0xab, 0xe5, 0xfc,
    0x17, 0x78, 0x90, 0x91, 0xf3, 0x28, 0x28, 0x79, 0x36, 0x37, 0x4f, 0x38, 0xf7, 0xd1, 0x0c, 0x49,
    0xcd, 0x2f, 0x83, 0x57, 0x28, 0x77, 0xaf, 0x24, 0xec, 0x21, 0xd7, 0xf8, 0x9a, 0x2e, 0x78, 0x0f,
    0xdd, 0xf6, 0x7e, 0x3f, 0xb9, 0x52, 0x9d, 0x95, 0x34, 0xd7, 0xa0, 0x7a, 0xb3, 0x60, 0x6e, 0x63,
    0x35, 0x31, 0x4e, 0x16, 0x0d, 0x11, 0x83, 0xbe, 0x78, 0x14, 0x10, 0x5a, 0x2f, 0x2c, 0x7a, 0xd5,
    0x7b, 0x53, 0x1a, 0xee, 0xc3, 0x05, 0x55, 0x64, 0xbe, 0x4c, 0x83, 0x8b, 0x48, 0x3b, 0x97, 0xd7,
    0xe0, 0x29, 0x6b, 0x3b, 0xa6, 0xbc, 0x92, 0x70, 0xc5, 0x02, 0x03, 0x01, 0x00, 0x01,
];

const VERIFYING_KEY_02: &[u8] = &[
    0x30, 0x82, 0x01, 0x0a, 0x02, 0x82, 0x01, 0x01, 0x00, 0x9a, 0x8c, 0x80, 0x01, 0xc7, 0x0b, 0xbc,
    0x6f, 0xc1, 0xc2, 0x5d, 0x9b, 0xaf, 0x38, 0x43, 0x23, 0x25, 0xfa, 0xa8, 0xbd, 0x18, 0xf9, 0x95,
    0x5c, 0x21, 0xb5, 0x93, 0x8e, 0x8f, 0xd2, 0x92, 0x24, 0x2d, 0x47, 0x2e, 0xd1, 0xae, 0x78, 0x6b,
    0x62, 0x91, 0x21, 0xa9, 0xb6, 0x86, 0xd6, 0xbd, 0x06, 0x71, 0xa5, 0xa9, 0x39, 0x8c, 0x08, 0x48,
    0xe5, 0x4a, 0x4c, 0x14, 0xee, 0x84, 0xff, 0xe3, 0xe1, 0x0a, 0xac, 0x6f, 0x12, 0x47, 0xfa, 0xd4,
    0x5e, 0x6f, 0xa6, 0x8d, 0x3b, 0x36, 0x24, 0x82, 0x63, 0x9a, 0x2a, 0x7c, 0x0e, 0x30, 0xe0, 0x0f,
    0x7b, 0xfa, 0x3e, 0x6c, 0xcf, 0x1b, 0x0d, 0x20, 0x0d, 0x3c, 0xc8, 0x42, 0xa1, 0xd7, 0x2a, 0xc2,
    0x45, 0x0f, 0x7b, 0x77, 0x8f, 0xc3, 0x06, 0x0f, 0xea, 0x3d, 0xbd, 0x4e, 0x0b, 0x4e, 0x73, 0x71,
    0x12, 0x6e, 0xe5, 0xd8, 0x5b, 0x05, 0xa1, 0x8a, 0xfb, 0xf4, 0xee, 0x81, 0x9d, 0x02, 0x3d, 0x57,
    0x52, 0x6f, 0x72, 0x4f, 0x5e, 0x5b, 0x1a, 0x2f, 0xcf, 0x66, 0xe4, 0x95, 0x22, 0x0d, 0x76, 0x97,
    0xa6, 0xc7, 0xae, 0xdb, 0x89, 0x87, 0x1f, 0xd0, 0x36, 0x7c, 0x88, 0xad, 0x6f, 0xc2, 0xa5, 0x07,
    0xc9, 0x33, 0xfe, 0x2c, 0x9a, 0x5c, 0x0a, 0x62, 0xed, 0x33, 0xd8, 0x03, 0xef, 0x0d, 0x9f, 0xa6,
    0x07, 0x50, 0xd5, 0x8e, 0xc9, 0x47, 0x5c, 0x34, 0x87, 0xd8, 0x31, 0x46, 0xca, 0xc5, 0x49, 0xb8,
    0x10, 0x1a, 0x03, 0x1f, 0x03, 0xb2, 0xe3, 0x46, 0x2e, 0xb8, 0x65, 0xd2, 0x52, 0xc6, 0xeb, 0x38,
    0xe2, 0x02, 0x46, 0x15, 0x44, 0xb6, 0x52, 0x0e, 0x90, 0x03, 0x51, 0x52, 0x49, 0xec, 0x59, 0x63,
    0x26, 0x9c, 0x79, 0x26, 0x5f, 0xd0, 0xa2, 0xb3, 0xa9, 0xba, 0xb1, 0x86, 0xd6, 0xd3, 0xd3, 0xd5,
    0x5a, 0x43, 0x22, 0xbc, 0xaf, 0x83, 0x0e, 0x1e, 0x3d, 0x02, 0x03, 0x01, 0x00, 0x01,
];

// The issuer of the service generating the token.
const ISS_01: &str = "service01";
const ISS_02: &str = "service02";
// The path of the public key in the keyserver.
const KID_01: &str = "service01/1530402390-public.der";
const KID_02: &str = "service02/1530402393-public.der";
// The keyserver that holds the public keys, and one that cannot be reached.
const KEYSERVER: &str = "http://localhost:8000/";
const NO_KEYSERVER: &str = "http://not-a-real-server:1234/";

fn private_key_01() -> Vec<u8> {
    SIGNING_KEY_01.to_vec()
}

fn public_key(der: &[u8]) -> PublicKey {
    PublicKey::from_rsa_der(der.to_vec())
}

fn now() -> i64 {
    chrono::Utc::now().timestamp()
}

fn get_validator_builder(keyserver_url: &str) -> ValidatorBuilder {
    Validator::builder(keyserver_url.to_string(), ISS_01.to_string())
}

fn default_aud() -> Aud {
    Aud::One(ISS_01.to_string())
}

fn default_generator() -> Generator {
    Generator::new(ISS_01.to_string(), KID_01.to_string(), private_key_01())
}

fn one_claim(name: &str, value: ClaimValue) -> ClaimMap {
    let mut m = ClaimMap::new();
    m.insert(name.to_string(), value);
    m
}

/// The keys the keyserver serves, and how many it has served.
struct Keys {
    count: usize,
}

impl Keys {
    /// One request to a server for a key.
    fn fetch(&mut self, server: &str, kid: &str) -> Result<PublicKey, KeyserverError> {
        let url = key_url(server, kid)?;
        if server != KEYSERVER {
            return Err(request_failure(None, "error sending request".to_string()));
        }
        let pem = if url == format!("{}{}", KEYSERVER, KID_01) {
            VERIFYING_KEY_01
        } else if url == format!("{}{}", KEYSERVER, KID_02) {
            VERIFYING_KEY_02
        } else {
            return Err(request_failure(Some(404), "404 Not Found".to_string()));
        };
        self.count += 1;
        Ok(public_key(pem))
    }

    /// A key looked up on the validator's keyservers, in order.
    fn lookup(&mut self, validator: &Validator, kid: &str) -> Result<PublicKey, KeyserverError> {
        let keyserver = validator.keyserver();
        let mut tried = 0;
        let mut last = None;
        loop {
            match keyserver.next_lookup(tried, last) {
                KeyLookup::Fetch(server) => {
                    last = Some(self.fetch(&server, kid));
                    tried += 1;
                }
                KeyLookup::Done(result) => return result,
            }
        }
    }
}

fn to_claim_value(v: &Value) -> ClaimValue {
    match v {
        Value::Null => ClaimValue::Null,
        Value::Bool(b) => ClaimValue::Bool(*b),
        Value::Number(n) => match (n.as_u64(), n.as_i64()) {
            (Some(u), _) => ClaimValue::PosInt(u),
            (None, Some(i)) => ClaimValue::NegInt(i),
            _ => ClaimValue::Float(n.to_string()),
        },
        Value::String(s) => ClaimValue::Str(s.clone()),
        Value::Array(items) => ClaimValue::Array(items.iter().map(to_claim_value).collect()),
        Value::Object(map) => {
            let mut m = ClaimMap::new();
            for (k, x) in map {
                m.insert(k.clone(), to_claim_value(x));
            }
            ClaimValue::Object(m)
        }
    }
}

fn claims_from_json(text: &str) -> Claims {
    let v: Value = serde_json::from_str(text).unwrap();
    let obj = v.as_object().unwrap();
    let aud = match &obj["aud"] {
        Value::String(s) => Aud::One(s.clone()),
        Value::Array(items) => Aud::Many(items.iter().map(|x| x.as_str().unwrap().to_string()).collect()),
        other => panic!("unexpected aud {:?}", other),
    };
    let mut extra = ClaimMap::new();
    for (k, x) in obj {
        if !["aud", "iss", "jti", "iat", "exp"].contains(&k.as_str()) {
            extra.insert(k.clone(), to_claim_value(x));
        }
    }
    Claims {
        aud,
        iss: obj["iss"].as_str().unwrap().to_string(),
        jti: obj["jti"].as_str().unwrap().to_string(),
        iat: obj["iat"].as_i64().unwrap(),
        exp: obj["exp"].as_i64().unwrap(),
        extra_claims: if extra.is_empty() { None } else { Some(extra) },
    }
}

/// Decodes and validates a token as a validator does: the header's key id,
/// the key from the cache or the keyservers, the signature, the claims.
fn decode(validator: &mut Validator, keys: &mut Keys, token: &str, whitelisted: &[&str]) -> Result<Claims, AsapError> {
    let (_header, kid) = read_header(token)?;
    let key = match validator.cached_public_key(&kid) {
        Some(k) => k,
        None => key_from_keyserver(keys.lookup(validator, &kid))?,
    };
    let text = validator.check_signature(token, &key)?;
    let claims = claims_from_json(&text);
    validator.accept(kid, &claims, key, Some(whitelisted))?;
    Ok(claims)
}

fn message(e: AsapError) -> String {
    e.describe()
}

fn check_claims(claims: &Claims, expected_aud: &Aud) {
    let now = now();
    assert_eq!(claims.aud.to_list(), expected_aud.to_list());
    assert_eq!(&claims.iss, ISS_01);
    assert_eq!(claims.jti.len(), 20);
    assert_eq!(claims.exp - claims.iat, DEFAULT_TOKEN_LIFESPAN);
    assert!(claims.iat > now - 2 && claims.iat < now + 2);
}

fn mock_extra_claims() -> ClaimMap {
    let mut m = ClaimMap::new();
    m.insert(
        "object".to_string(),
        ClaimValue::Object(one_claim(
            "one",
            ClaimValue::Array(vec![ClaimValue::Str("two".to_string()), ClaimValue::Str("three".to_string())]),
        )),
    );
    m.insert("number".to_string(), ClaimValue::PosInt(123));
    m.insert("string".to_string(), ClaimValue::Str("one two three".to_string()));
    m.insert(
        "array".to_string(),
        ClaimValue::Array(vec![
            ClaimValue::Str("one".to_string()),
            ClaimValue::Str("two".to_string()),
            ClaimValue::Str("three".to_string()),
        ]),
    );
    m.insert("bool".to_string(), ClaimValue::Bool(true));
    m.insert("null".to_string(), ClaimValue::Null);
    m
}

fn extra_json(claims: &Claims) -> Value {
    let text = claims.to_json();
    serde_json::from_str(&text).unwrap()
}

#[test]
fn api_it_works() {
    let mut keys = Keys { count: 0 };
    let mut generator = default_generator();
    let mut validator = get_validator_builder(KEYSERVER).build();

    let token = generator.token(default_aud(), None).unwrap();
    let claims = decode(&mut validator, &mut keys, &token, &[ISS_01]).unwrap();
    check_claims(&claims, &default_aud());
    assert!(claims.extra_claims.is_none());

    let token = generator.token(default_aud(), Some(mock_extra_claims())).unwrap();
    let claims = decode(&mut validator, &mut keys, &token, &[ISS_01]).unwrap();
    check_claims(&claims, &default_aud());
    let v = extra_json(&claims);
    assert_eq!(v["object"]["one"][1].as_str(), Some("three"));
    assert_eq!(v["number"].as_i64(), Some(123));
    assert_eq!(v["string"].as_str(), Some("one two three"));
    assert_eq!(v["array"].as_array().unwrap().len(), 3);
    assert_eq!(v["bool"].as_bool(), Some(true));
    assert!(v["null"].is_null());
    assert_eq!(claims.extra_claims.unwrap().len(), 6);
}

#[test]
fn api_validates_nbf_is_after_current_time() {
    let mut keys = Keys { count: 0 };
    let now = now();
    let mut generator = default_generator();
    let mut validator = get_validator_builder(KEYSERVER).build();

    let token = generator.token(default_aud(), Some(one_claim("nbf", ClaimValue::PosInt((now + 30) as u64)))).unwrap();
    match decode(&mut validator, &mut keys, &token, &[ISS_01]) {
        Ok(_) => panic!("Validation should fail."),
        Err(e) => assert!(message(e).starts_with("Immature jwt signature")),
    }

    let token = generator.token(default_aud(), Some(one_claim("nbf", ClaimValue::PosInt((now - 30) as u64)))).unwrap();
    let _ = decode(&mut validator, &mut keys, &token, &[ISS_01]).unwrap();
}

#[test]
fn api_validates_exp_is_before_current_time() {
    let mut keys = Keys { count: 0 };
    let mut generator = default_generator();
    let mut validator = get_validator_builder(KEYSERVER).build();

    generator.set_max_lifespan(1);
    let token = generator.token(default_aud(), None).unwrap();
    wait(std::time::Duration::from_secs(2));

    match decode(&mut validator, &mut keys, &token, &[ISS_01]) {
        Ok(_) => panic!("Validation should fail."),
        Err(e) => assert!(message(e).starts_with("Expired jwt signature")),
    }
}

#[test]
fn api_validates_if_max_lifespan_is_exceeded() {
    let mut keys = Keys { count: 0 };
    let mut generator = default_generator();
    let mut validator = get_validator_builder(KEYSERVER).build();

    let token = generator.token(default_aud(), None).unwrap();
    let _ = decode(&mut validator, &mut keys, &token, &[ISS_01]).unwrap();

    generator.set_max_lifespan(3601);
    let token = generator.token(default_aud(), None).unwrap();
    match decode(&mut validator, &mut keys, &token, &[ISS_01]) {
        Ok(_) => panic!("Validation should fail."),
        Err(e) => assert_eq!(
            message(e),
            "Token contained a lifespan greater than the `max_lifespan` (hard limit of 3600 seconds)"
        ),
    }
}

#[test]
fn api_validates_if_custom_max_lifespan_is_exceeded() {
    let mut keys = Keys { count: 0 };
    let mut generator = default_generator();
    let mut validator = get_validator_builder(KEYSERVER).max_lifespan(60).build();

    generator.set_max_lifespan(30);
    let token = generator.token(default_aud(), None).unwrap();
    let _ = decode(&mut validator, &mut keys, &token, &[ISS_01]).unwrap();

    generator.set_max_lifespan(120);
    let token = generator.token(default_aud(), None).unwrap();
    match decode(&mut validator, &mut keys, &token, &[ISS_01]) {
        Ok(_) => panic!("Validation should fail."),
        Err(e) => assert_eq!(
            message(e),
            "Token contained a lifespan greater than the `max_lifespan` (hard limit of 3600 seconds)"
        ),
    }
}

#[test]
fn api_validates_if_encounters_unrecognized_audience() {
    let mut keys = Keys { count: 0 };
    let mut generator = default_generator();
    let mut validator = get_validator_builder(KEYSERVER).build();

    let token = generator.token(default_aud(), None).unwrap();
    let _ = decode(&mut validator, &mut keys, &token, &[ISS_01]).unwrap();

    let token = generator.token(Aud::One("not-whitelisted".to_string()), None).unwrap();
    match decode(&mut validator, &mut keys, &token, &[ISS_01]) {
        Ok(_) => panic!("Validation should fail."),
        Err(e) => assert_eq!(
            message(e),
            "Resource server audience not found in `aud` claims of token [\"not-whitelisted\"]"
        ),
    }
}

#[test]
fn api_works_with_aud_as_vec() {
    let mut keys = Keys { count: 0 };
    let mut generator = default_generator();
    let mut validator = get_validator_builder(KEYSERVER).build();

    let aud = Aud::Many(vec!["foo".to_string(), ISS_01.to_string()]);
    let token = generator.token(aud, None).unwrap();
    let _ = decode(&mut validator, &mut keys, &token, &[ISS_01]).unwrap();

    let aud = Aud::Many(vec!["foo".to_string(), "bar".to_string()]);
    let token = generator.token(aud, None).unwrap();
    match decode(&mut validator, &mut keys, &token, &[ISS_01]) {
        Ok(_) => panic!("Validation should fail."),
        Err(e) => assert_eq!(
            message(e),
            "Resource server audience not found in `aud` claims of token [\"foo\", \"bar\"]"
        ),
    }
}

#[test]
fn api_works_with_aud_as_string() {
    let mut keys = Keys { count: 0 };
    let mut generator = default_generator();
    let mut validator = get_validator_builder(KEYSERVER).build();

    let token = generator.token(default_aud(), None).unwrap();
    let _ = decode(&mut validator, &mut keys, &token, &[ISS_01]).unwrap();

    let token = generator.token(default_aud(), None).unwrap();
    match decode(&mut validator, &mut keys, &token, &["foobar"]) {
        Ok(_) => panic!("Validation should fail."),
        Err(e) => assert_eq!(
            message(e),
            "Unknown or unauthorized subject \"service01\". The `sub` claim (or `iss`) must exist in `whitelisted_issuers` [\"foobar\"]"
        ),
    }
}

#[test]
fn api_iss_is_assumed_if_sub_is_undefined() {
    let mut keys = Keys { count: 0 };
    let mut generator = default_generator();
    let mut validator = get_validator_builder(KEYSERVER).build();

    let token_with_sub = generator
        .token(default_aud(), Some(one_claim("sub", ClaimValue::Str(ISS_02.to_string()))))
        .unwrap();
    let token_no_sub = generator.token(default_aud(), None).unwrap();
    let whitelisted_issuers = vec![ISS_02];

    let _ = decode(&mut validator, &mut keys, &token_with_sub, &whitelisted_issuers).unwrap();

    match decode(&mut validator, &mut keys, &token_no_sub, &whitelisted_issuers) {
        Ok(_) => panic!("Validation should fail."),
        Err(e) => assert_eq!(
            message(e),
            "Unknown or unauthorized subject \"service01\". The `sub` claim (or `iss`) must exist in `whitelisted_issuers` [\"service02\"]"
        ),
    }
}

#[test]
fn api_validates_kid_is_owned_by_isser() {
    let mut keys = Keys { count: 0 };
    let mut validator = get_validator_builder(KEYSERVER).build();

    let mut generator = default_generator();
    let token = generator.token(default_aud(), None).unwrap();
    let _ = decode(&mut validator, &mut keys, &token, &[ISS_01]).unwrap();

    let mut generator = Generator::new(ISS_02.to_string(), KID_01.to_string(), private_key_01());
    let token = generator.token(default_aud(), None).unwrap();
    match decode(&mut validator, &mut keys, &token, &[ISS_01]) {
        Ok(_) => panic!("Validation should fail."),
        Err(e) => assert_eq!(
            message(e),
            "JWT header did not contain a valid `kid` claim. As per ASAP spec, the `kid` claim must start with \"$iss/\" where $iss is the issuer (kid: \"service01/1530402390-public.der\", iss: \"service02\")"
        ),
    }
}

#[test]
fn api_it_rejects_duplicate_jti_claims() {
    let mut keys = Keys { count: 0 };
    let mut generator = default_generator();
    let mut validator = get_validator_builder(KEYSERVER).validate_jti(true).build();

    let token = generator.token(default_aud(), None).unwrap();
    let _ = decode(&mut validator, &mut keys, &token, &[ISS_01]).unwrap();

    match decode(&mut validator, &mut keys, &token, &[ISS_01]) {
        Ok(_) => panic!("Validation should fail."),
        Err(e) => assert!(message(e).starts_with("Duplicate `jti` encountered: ")),
    }

    let token = generator.token(default_aud(), None).unwrap();
    let _ = decode(&mut validator, &mut keys, &token, &[ISS_01]).unwrap();
}

#[test]
fn api_it_fails_with_wrong_public_key() {
    let mut keys = Keys { count: 0 };
    let mut generator = Generator::new(ISS_01.to_string(), KID_02.to_string(), private_key_01());
    let mut validator = get_validator_builder(KEYSERVER).build();

    let token = generator.token(default_aud(), None).unwrap();
    match decode(&mut validator, &mut keys, &token, &[ISS_01]) {
        Ok(_) => panic!("Validation should fail."),
        Err(e) => assert_eq!(message(e), "InvalidSignature"),
    }
}

#[test]
fn api_it_fails_with_no_public_key() {
    let mut keys = Keys { count: 0 };
    let mut generator = Generator::new(ISS_01.to_string(), "not-a-kid".to_string(), private_key_01());
    let mut validator = get_validator_builder(KEYSERVER).build();

    let token = generator.token(default_aud(), None).unwrap();
    match decode(&mut validator, &mut keys, &token, &[ISS_01]) {
        Ok(_) => panic!("Validation should fail."),
        Err(e) => assert_eq!(
            message(e),
            "Failed to retrieve public key from keyserver: \"Failed to fetch a key from any keyserver\""
        ),
    }
}

#[test]
fn api_it_uses_the_fallback_keyserver() {
    let mut keys = Keys { count: 0 };
    let mut generator = default_generator();
    let mut validator = Validator::builder(NO_KEYSERVER.to_string(), ISS_01.to_string())
        .fallback_keyserver(KEYSERVER.to_string())
        .build();

    let token = generator.token(default_aud(), None).unwrap();
    let claims = decode(&mut validator, &mut keys, &token, &[ISS_01]).unwrap();
    check_claims(&claims, &default_aud());
}

#[test]
fn api_it_fetches_key_from_cache() {
    let mut keys = Keys { count: 0 };
    let mut generator = default_generator();
    let mut validator = get_validator_builder(KEYSERVER).build();
    let token = generator.token(default_aud(), None).unwrap();

    let _ = decode(&mut validator, &mut keys, &token, &[ISS_01]).unwrap();
    assert_eq!(keys.count, 1);
    let _ = decode(&mut validator, &mut keys, &token, &[ISS_01]).unwrap();
    assert_eq!(keys.count, 1);
}

#[test]
fn api_it_does_not_fetch_expired_key_from_cache() {
    let mut keys = Keys { count: 0 };
    let mut generator = default_generator();
    let token = generator.token(default_aud(), None).unwrap();

    let mut validator = get_validator_builder(KEYSERVER)
        .cache_duration(std::time::Duration::from_nanos(0))
        .build();

    let _ = decode(&mut validator, &mut keys, &token, &[ISS_01]).unwrap();
    assert_eq!(keys.count, 1);
    let _ = decode(&mut validator, &mut keys, &token, &[ISS_01]).unwrap();
    assert_eq!(keys.count, 2);
}

#[test]
fn it_allows_extra_claims() {
    let mut keys = Keys { count: 0 };
    let mut generator = default_generator();
    let mut validator = get_validator_builder(KEYSERVER).build();

    let mut extra_claims = ClaimMap::new();
    extra_claims.insert("foo".to_string(), ClaimValue::Str("foo".to_string()));
    extra_claims.insert("bar".to_string(), ClaimValue::PosInt(1234));
    extra_claims.insert(
        "baz".to_string(),
        ClaimValue::Array(vec![ClaimValue::Str("baz".to_string()), ClaimValue::Str("bop".to_string())]),
    );

    let token = generator.token(default_aud(), Some(extra_claims)).unwrap();
    let claims = decode(&mut validator, &mut keys, &token, &[ISS_01]).unwrap();

    let v = extra_json(&claims);
    assert_eq!(v["foo"], Value::String("foo".to_string()));
    assert_eq!(v["bar"].as_i64(), Some(1234));
    assert_eq!(v["baz"], serde_json::from_str::<Value>("[\"baz\", \"bop\"]").unwrap());
}

#[test]
fn it_does_not_override_required_claims() {
    let mut keys = Keys { count: 0 };
    let mut generator = default_generator();
    let mut validator = get_validator_builder(KEYSERVER).build();

    let mut extra_claims = ClaimMap::new();
    for key in ["aud", "iss", "jti", "iat", "exp"] {
        extra_claims.insert(key.to_string(), ClaimValue::Str(key.to_string()));
    }

    let token = generator.token(default_aud(), Some(extra_claims)).unwrap();
    let claims = decode(&mut validator, &mut keys, &token, &[ISS_01]).unwrap();

    assert_eq!(claims.aud.to_list(), vec![ISS_01.to_string()]);
    assert!(claims.iss != "iss");
    assert!(claims.jti != "jti");
    let now = now();
    assert!(claims.iat > now - 2 && claims.iat < now + 2);
    assert_eq!(claims.exp - claims.iat, DEFAULT_TOKEN_LIFESPAN);
}

#[test]
fn it_caches_tokens_when_enabled() {
    let mut generator = default_generator();
    generator.enable_token_caching(10, std::time::Duration::from_millis(1000));

    let token_1 = generator.token(default_aud(), None).unwrap();
    let token_2 = generator.token(default_aud(), None).unwrap();
    assert_eq!(token_1, token_2);
}

fn foo_bar_baz() -> ClaimMap {
    let mut extra_claims = ClaimMap::new();
    extra_claims.insert("foo".to_string(), ClaimValue::Str("foo".to_string()));
    extra_claims.insert("bar".to_string(), ClaimValue::PosInt(1234));
    extra_claims.insert(
        "baz".to_string(),
        ClaimValue::Array(vec![ClaimValue::Str("baz".to_string()), ClaimValue::Str("bop".to_string())]),
    );
    extra_claims
}

#[test]
fn it_caches_tokens_with_extra_claims_when_enabled() {
    let mut generator = default_generator();
    generator.enable_token_caching(10, std::time::Duration::from_millis(1000));

    let token_1 = generator.token(default_aud(), Some(foo_bar_baz())).unwrap();
    let token_2 = generator.token(default_aud(), Some(foo_bar_baz())).unwrap();
    assert_eq!(token_1, token_2);
}

#[test]
fn it_does_not_return_expired_cached_tokens() {
    let cache_duration = std::time::Duration::from_millis(100);

    let mut generator = default_generator();
    generator.enable_token_caching(10, cache_duration);

    let token_1 = generator.token(default_aud(), None).unwrap();
    wait(cache_duration);
    let token_2 = generator.token(default_aud(), None).unwrap();

    assert!(token_1 != token_2);
}

#[test]
fn it_regenerates_cached_tokens_when_they_are_different() {
    let mut generator = default_generator();
    generator.enable_token_caching(10, std::time::Duration::from_millis(1000));

    let token_1 = generator.token(Aud::One(ISS_01.to_string()), None).unwrap();
    let token_2 = generator.token(Aud::One(ISS_02.to_string()), None).unwrap();
    assert!(token_1 != token_2);

    let token_1 = generator
        .token(default_aud(), Some(one_claim("foo", ClaimValue::Str("foo".to_string()))))
        .unwrap();
    let token_2 = generator
        .token(default_aud(), Some(one_claim("bar", ClaimValue::Str("bar".to_string()))))
        .unwrap();
    assert!(token_1 != token_2);
}

#[test]
fn it_does_not_cache_more_tokens_than_max_count() {
    let mut generator = default_generator();

    generator.enable_token_caching(10, std::time::Duration::from_millis(1000));
    let _token_1 = generator.token(Aud::One(ISS_01.to_string()), None).unwrap();
    let _token_2 = generator.token(Aud::One("foo".to_string()), None).unwrap();
    let _token_3 = generator
        .token(Aud::Many(vec![ISS_01.to_string(), "foo".to_string()]), None)
        .unwrap();
    assert_eq!(generator.disable_token_caching().unwrap().len(), 3);

    generator.enable_token_caching(2, std::time::Duration::from_millis(1000));
    let _token_1 = generator.token(Aud::One(ISS_01.to_string()), None).unwrap();
    let _token_2 = generator.token(Aud::One("foo".to_string()), None).unwrap();
    let _token_3 = generator
        .token(Aud::Many(vec![ISS_01.to_string(), "foo".to_string()]), None)
        .unwrap();
    assert_eq!(generator.disable_token_caching().unwrap().len(), 2);
}

fn mock_claims_json() -> Value {
    let now = now();
    let claims = Claims {
        aud: Aud::One(ISS_01.to_string()),
        iss: ISS_01.to_string(),
        jti: "some-random-jti".to_string(),
        iat: now,
        exp: now + 60,
        extra_claims: None,
    };
    serde_json::from_str(&claims.to_json()).unwrap()
}

#[test]
fn it_rejects_tokens_with_missing_signatures() {
    let mut keys = Keys { count: 0 };
    let mut header = jsonwebtoken::Header::new(jsonwebtoken::Algorithm::RS256);
    header.kid = Some(KID_01.to_string());

    let token = jsonwebtoken::encode(
        &header,
        &mock_claims_json(),
        &jsonwebtoken::EncodingKey::from_rsa_der(&private_key_01()),
    )
    .unwrap();
    let dot = token.rfind('.').unwrap();
    let signing_input = token[..dot].to_string();

    let mut validator = get_validator_builder(KEYSERVER).build();
    match decode(&mut validator, &mut keys, &signing_input, &[ISS_01]) {
        Ok(_) => panic!("Validation should fail."),
        Err(e) => assert_eq!("InvalidToken", message(e)),
    }

    match decode(&mut validator, &mut keys, &(signing_input + "."), &[ISS_01]) {
        Ok(_) => panic!("Validation should fail."),
        Err(e) => assert_eq!("InvalidSignature", message(e)),
    }
}

#[test]
fn it_rejects_tokens_signed_with_unsupported_alg() {
    let unsupported_algs = vec![
        (jsonwebtoken::Algorithm::HS256, jsonwebtoken::EncodingKey::from_secret(b"some-secret")),
        (jsonwebtoken::Algorithm::HS384, jsonwebtoken::EncodingKey::from_secret(b"some-secret")),
        (jsonwebtoken::Algorithm::HS512, jsonwebtoken::EncodingKey::from_secret(b"some-secret")),
        (jsonwebtoken::Algorithm::RS384, jsonwebtoken::EncodingKey::from_rsa_der(&private_key_01())),
        (jsonwebtoken::Algorithm::RS512, jsonwebtoken::EncodingKey::from_rsa_der(&private_key_01())),
    ];

    for (alg, key) in unsupported_algs {
        let mut keys = Keys { count: 0 };
        let mut header = jsonwebtoken::Header::new(alg);
        header.kid = Some(KID_01.to_string());

        let token = jsonwebtoken::encode(&header, &mock_claims_json(), &key).unwrap();
        let mut validator = get_validator_builder(KEYSERVER).build();
        match decode(&mut validator, &mut keys, &token, &[ISS_01]) {
            Ok(_) => panic!("Validation should fail."),
            Err(e) => assert_eq!(message(e), "InvalidAlgorithm"),
        }
    }
}

// The audience of the resource server in the tests of claims signed as given.
const SERVER_AUDIENCE: &str = "resource_server_audience";

fn given_claims() -> Claims {
    let now = now();
    Claims {
        iss: ISS_01.to_string(),
        exp: now + 3000,
        iat: now,
        aud: Aud::One(SERVER_AUDIENCE.to_string()),
        jti: "foobar".to_string(),
        extra_claims: None,
    }
}

fn server_validator() -> Validator {
    get_validator_builder_for(KEYSERVER, SERVER_AUDIENCE).build()
}

fn get_validator_builder_for(keyserver_url: &str, audience: &str) -> ValidatorBuilder {
    Validator::builder(keyserver_url.to_string(), audience.to_string())
}

fn gen_token(kid: &str, claims: &Claims) -> String {
    generate_token(kid, claims, &private_key_01()).unwrap()
}

fn with_claims(claims: &Claims, iat: i64, exp: i64) -> Claims {
    Claims {
        aud: claims.aud.duplicate(),
        iss: claims.iss.clone(),
        jti: claims.jti.clone(),
        iat,
        exp,
        extra_claims: None,
    }
}

#[test]
fn tests_it_works() {
    let mut keys = Keys { count: 0 };
    let claims = given_claims();
    let mut validator = server_validator();

    let decoded = decode(&mut validator, &mut keys, &gen_token(KID_01, &claims), &[ISS_01]).unwrap();
    assert_eq!(claims.to_json(), decoded.to_json());
}

#[test]
fn tests_validates_nbf_is_after_current_time() {
    let mut keys = Keys { count: 0 };
    let now = now();
    let mut validator = server_validator();
    let mut claims = with_claims(&given_claims(), now, now + 60);

    claims.extra_claims = Some(one_claim("nbf", ClaimValue::PosInt((now + 30) as u64)));
    match decode(&mut validator, &mut keys, &gen_token(KID_01, &claims), &[ISS_01]) {
        Ok(_) => panic!("Validation should fail."),
        Err(e) => assert!(message(e).starts_with("Immature jwt signature")),
    }

    claims.extra_claims = Some(one_claim("nbf", ClaimValue::PosInt((now - 30) as u64)));
    let _ = decode(&mut validator, &mut keys, &gen_token(KID_01, &claims), &[ISS_01]).unwrap();
}

#[test]
fn validates_unset_nbf_is_after_current_time() {
    let mut keys = Keys { count: 0 };
    let now = now();
    let mut validator = server_validator();
    let claims = given_claims();

    let early = with_claims(&claims, now + 30, claims.exp);
    match decode(&mut validator, &mut keys, &gen_token(KID_01, &early), &[ISS_01]) {
        Ok(_) => panic!("Validation should fail."),
        Err(e) => assert!(message(e).starts_with("Immature jwt signature")),
    }

    let late = with_claims(&claims, now - 30, claims.exp);
    let _ = decode(&mut validator, &mut keys, &gen_token(KID_01, &late), &[ISS_01]).unwrap();
}

#[test]
fn tests_validates_exp_is_before_current_time() {
    let mut keys = Keys { count: 0 };
    let now = now();
    let claims = given_claims();
    let mut validator = server_validator();

    let expired = with_claims(&claims, claims.iat, now - 30);
    match decode(&mut validator, &mut keys, &gen_token(KID_01, &expired), &[ISS_01]) {
        Ok(_) => panic!("Validation should fail."),
        Err(e) => assert!(message(e).starts_with("Expired jwt signature")),
    }

    let live = with_claims(&claims, claims.iat, now + 30);
    let _ = decode(&mut validator, &mut keys, &gen_token(KID_01, &live), &[ISS_01]).unwrap();
}

#[test]
fn tests_validates_if_custom_max_lifespan_is_exceeded() {
    let mut keys = Keys { count: 0 };
    let now = now();
    let claims = given_claims();
    let mut validator = get_validator_builder_for(KEYSERVER, SERVER_AUDIENCE).max_lifespan(60).build();

    let short = with_claims(&claims, now, now + 30);
    let _ = decode(&mut validator, &mut keys, &gen_token(KID_01, &short), &[ISS_01]).unwrap();

    let long = with_claims(&claims, now, now + 120);
    match decode(&mut validator, &mut keys, &gen_token(KID_01, &long), &[ISS_01]) {
        Ok(_) => panic!("Validation should fail."),
        Err(e) => assert_eq!(
            message(e),
            "Token contained a lifespan greater than the `max_lifespan` (hard limit of 3600 seconds)"
        ),
    }
}

#[test]
fn tests_validates_if_encounters_unrecognized_audience() {
    let mut keys = Keys { count: 0 };
    let mut validator = server_validator();
    let mut claims = given_claims();

    let _ = decode(&mut validator, &mut keys, &gen_token(KID_01, &claims), &[ISS_01]).unwrap();

    claims.aud = Aud::One("some-other-audience".to_string());
    match decode(&mut validator, &mut keys, &gen_token(KID_01, &claims), &[ISS_01]) {
        Ok(_) => panic!("Validation should fail."),
        Err(e) => assert_eq!(
            message(e),
            "Resource server audience not found in `aud` claims of token [\"some-other-audience\"]"
        ),
    }
}

#[test]
fn validates_if_encounters_unrecognized_audience_as_vec() {
    let mut keys = Keys { count: 0 };
    let mut validator = server_validator();
    let now = now();
    let mut claims = with_claims(&given_claims(), now, now + 60);

    claims.aud = Aud::Many(vec!["foo".to_string(), SERVER_AUDIENCE.to_string()]);
    let _ = decode(&mut validator, &mut keys, &gen_token(KID_01, &claims), &[ISS_01]).unwrap();

    claims.aud = Aud::Many(vec!["foo".to_string(), "bar".to_string()]);
    match decode(&mut validator, &mut keys, &gen_token(KID_01, &claims), &[ISS_01]) {
        Ok(_) => panic!("Validation should fail."),
        Err(e) => assert_eq!(
            message(e),
            "Resource server audience not found in `aud` claims of token [\"foo\", \"bar\"]"
        ),
    }
}

#[test]
fn tests_validates_kid_is_owned_by_isser() {
    let mut keys = Keys { count: 0 };
    let mut validator = server_validator();
    let mut claims = given_claims();

    let _ = decode(&mut validator, &mut keys, &gen_token(KID_01, &claims), &[ISS_01]).unwrap();

    claims.iss = ISS_02.to_string();
    match decode(&mut validator, &mut keys, &gen_token(KID_01, &claims), &[ISS_01]) {
        Ok(_) => panic!("Validation should fail."),
        Err(e) => assert_eq!(
            message(e),
            "JWT header did not contain a valid `kid` claim. As per ASAP spec, the `kid` claim must start with \"$iss/\" where $iss is the issuer (kid: \"service01/1530402390-public.der\", iss: \"service02\")"
        ),
    }
}

#[test]
fn tests_it_rejects_duplicate_jti_claims() {
    let mut keys = Keys { count: 0 };
    let mut claims = given_claims();
    claims.jti = "first-nonce".to_string();
    let mut validator = get_validator_builder_for(KEYSERVER, SERVER_AUDIENCE).validate_jti(true).build();

    let _ = decode(&mut validator, &mut keys, &gen_token(KID_01, &claims), &[ISS_01]).unwrap();
    match decode(&mut validator, &mut keys, &gen_token(KID_01, &claims), &[ISS_01]) {
        Ok(_) => panic!("Validation should fail."),
        Err(e) => assert_eq!(message(e), "Duplicate `jti` encountered: \"first-nonce\""),
    }
    claims.jti = "second-nonce".to_string();
    let _ = decode(&mut validator, &mut keys, &gen_token(KID_01, &claims), &[ISS_01]).unwrap();
}

#[test]
fn tests_it_uses_the_fallback_keyserver() {
    let mut keys = Keys { count: 0 };
    let claims = given_claims();
    let mut validator = get_validator_builder_for(NO_KEYSERVER, SERVER_AUDIENCE)
        .fallback_keyserver(KEYSERVER.to_string())
        .build();

    let decoded = decode(&mut validator, &mut keys, &gen_token(KID_01, &claims), &[ISS_01]).unwrap();
    assert_eq!(claims.to_json(), decoded.to_json());
}

#[test]
fn tests_it_fetches_key_from_cache() {
    let mut keys = Keys { count: 0 };
    let claims = given_claims();
    let mut validator = server_validator();

    let _ = decode(&mut validator, &mut keys, &gen_token(KID_01, &claims), &[ISS_01]).unwrap();
    assert_eq!(keys.count, 1);
    let _ = decode(&mut validator, &mut keys, &gen_token(KID_01, &claims), &[ISS_01]).unwrap();
    assert_eq!(keys.count, 1);
}

#[test]
fn tests_it_does_not_fetch_expired_key_from_cache() {
    let mut keys = Keys { count: 0 };
    let claims = given_claims();
    let mut validator = get_validator_builder_for(KEYSERVER, SERVER_AUDIENCE)
        .cache_duration(std::time::Duration::from_nanos(0))
        .build();

    let _ = decode(&mut validator, &mut keys, &gen_token(KID_01, &claims), &[ISS_01]).unwrap();
    assert_eq!(keys.count, 1);
    let _ = decode(&mut validator, &mut keys, &gen_token(KID_01, &claims), &[ISS_01]).unwrap();
    assert_eq!(keys.count, 2);
}

#[test]
fn generator_checks_claims_are_valid() {
    let generator = default_generator();
    let c = given_claims();

    assert!(generator.validate_claims(&c).is_ok());

    let mut bad_iss = with_claims(&c, c.iat, c.exp);
    bad_iss.iss = "foo".to_string();
    assert!(generator.validate_claims(&bad_iss).is_err());

    let bad_lifespan = with_claims(&c, c.iat, c.iat + 3601);
    assert!(generator.validate_claims(&bad_lifespan).is_err());
}

/// Lets the given time pass.
fn wait(d: std::time::Duration) {
    let start = std::time::Instant::now();
    while start.elapsed() < d {
        std::hint::spin_loop();
    }
}

#[test]
fn auth_headers_carry_a_bearer_token() {
    let mut keys = Keys { count: 0 };
    let mut generator = default_generator();
    let mut validator = get_validator_builder(KEYSERVER).build();

    let header = generator.auth_header(default_aud(), None).unwrap();
    assert!(header.starts_with("Bearer "));
    let claims = decode(&mut validator, &mut keys, &header["Bearer ".len()..], &[ISS_01]).unwrap();
    check_claims(&claims, &default_aud());

    let mut broken = Generator::new(ISS_01.to_string(), KID_01.to_string(), vec![1, 2, 3]);
    assert!(matches!(broken.auth_header(default_aud(), None), Err(AsapError::Jwt(_))));
}

fn base64_lines(bytes: &[u8]) -> String {
    const TABLE: &[u8] = b"ABCDEFGHIJKLMNOPQRSTUVWXYZabcdefghijklmnopqrstuvwxyz0123456789+/";
    let mut text = String::new();
    for chunk in bytes.chunks(3) {
        let b = [chunk[0], *chunk.get(1).unwrap_or(&0), *chunk.get(2).unwrap_or(&0)];
        let n = ((b[0] as u32) << 16) | ((b[1] as u32) << 8) | b[2] as u32;
        for i in 0..4 {
            if i <= chunk.len() {
                text.push(TABLE[((n >> (18 - 6 * i)) & 63) as usize] as char);
            } else {
                text.push('=');
            }
        }
    }
    let mut out = String::new();
    for (i, c) in text.chars().enumerate() {
        if i > 0 && i % 64 == 0 {
            out.push('\n');
        }
        out.push(c);
    }
    out
}

#[test]
fn key_conversion() {
    let pem = format!(
        "-----BEGIN RSA PUBLIC KEY-----\n{}\n-----END RSA PUBLIC KEY-----\n",
        base64_lines(VERIFYING_KEY_01)
    );
    let key = convert_pem_to_der(pem.as_bytes()).unwrap();
    assert_eq!(key.as_slice(), VERIFYING_KEY_01);
}

#[test]
fn tests_validates_if_max_lifespan_is_exceeded() {
    let mut keys = Keys { count: 0 };
    let now = now();
    let claims = given_claims();
    // Should clamp to the hard limit.
    let mut validator = get_validator_builder_for(KEYSERVER, SERVER_AUDIENCE).max_lifespan(9_999_999_999).finish();

    let short = with_claims(&claims, now, now + 60);
    let _ = decode(&mut validator, &mut keys, &gen_token(KID_01, &short), &[ISS_01]).unwrap();

    let long = with_claims(&claims, now, now + 3601);
    match decode(&mut validator, &mut keys, &gen_token(KID_01, &long), &[ISS_01]) {
        Ok(_) => panic!("Validation should fail."),
        Err(e) => assert_eq!(
            message(e),
            "Token contained a lifespan greater than the `max_lifespan` (hard limit of 3600 seconds)"
        ),
    }
}

fn check_sync<T: Sync>() {}

#[test]
fn generator_is_sync() {
    check_sync::<Generator>();
}

#[test]
fn validator_is_sync() {
    check_sync::<Validator>();
}
