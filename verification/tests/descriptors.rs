//! Tests of the Microsoft OS feature descriptors.

use keykey::descriptors::{
    MSCompatibleIDDescriptor, MSCompatibleIDDescriptorFunction, MSPropertiesOSDescriptor,
    MSPropertiesOSDescriptorFeature, MSPropertyDataType, OSFeatureDescriptorType,
};

fn winusb_descriptor() -> MSCompatibleIDDescriptor {
    MSCompatibleIDDescriptor {
        dwLength: 40,
        bcdVersion: 0x0100,
        wIndex: OSFeatureDescriptorType::CompatibleID.value(),
        bNumSections: 1,
        features: vec![MSCompatibleIDDescriptorFunction {
            bInterfaceNumber: 0,
            sCompatibleID: b"WINUSB\x00\x00".to_vec(),
            sSubCompatibleID: vec![0; 8],
        }],
    }
}

fn guid_feature() -> MSPropertiesOSDescriptorFeature {
    MSPropertiesOSDescriptorFeature {
        dwPropertyDataType: MSPropertyDataType::REG_SZ.value(),
        bPropertyName: "DeviceInterfaceGUID\x00".encode_utf16().collect(),
        bPropertyData: "{183BE48C-1C39-4612-92EB-650C4450C1D3}\x00"
            .encode_utf16()
            .collect(),
    }
}

#[test]
fn compatible_id_descriptor_bytes() {
    let desc = winusb_descriptor();
    assert_eq!(desc.len(), 40);
    let bytes = desc.to_bytes();
    assert_eq!(bytes.len(), 40);
    let mut expected: Vec<u8> = Vec::new();
    expected.extend_from_slice(&40u32.to_le_bytes());
    expected.extend_from_slice(&0x0100u16.to_le_bytes());
    expected.extend_from_slice(&4u16.to_le_bytes());
    expected.push(1);
    expected.extend_from_slice(&[0; 7]);
    expected.push(0); // interface number
    expected.push(0); // reserved
    expected.extend_from_slice(b"WINUSB\x00\x00");
    expected.extend_from_slice(&[0; 8]);
    expected.extend_from_slice(&[0; 6]);
    assert_eq!(bytes, expected);
}

#[test]
fn feature_descriptor_type_values() {
    assert_eq!(OSFeatureDescriptorType::CompatibleID.value(), 4);
    assert_eq!(OSFeatureDescriptorType::Properties.value(), 5);
    assert_eq!(
        OSFeatureDescriptorType::from_value(4),
        Some(OSFeatureDescriptorType::CompatibleID)
    );
    assert_eq!(
        OSFeatureDescriptorType::from_value(5),
        Some(OSFeatureDescriptorType::Properties)
    );
    assert_eq!(OSFeatureDescriptorType::from_value(6), None);
    assert_eq!(MSPropertyDataType::REG_SZ.value(), 1);
    assert_eq!(MSPropertyDataType::REG_MULTI_SZ.value(), 7);
}

#[test]
fn property_feature_length_counts_utf16_units() {
    let feature = guid_feature();
    // 14 fixed bytes plus two bytes per UTF-16 unit of name and data.
    assert_eq!(feature.len(), 14 + 20 * 2 + 39 * 2);
}

#[test]
fn properties_descriptor_length() {
    let desc = MSPropertiesOSDescriptor {
        bcdVersion: 0x0100,
        wIndex: OSFeatureDescriptorType::Properties.value(),
        wCount: 1,
        features: vec![guid_feature()],
    };
    assert_eq!(desc.len(), 10 + 14 + 20 * 2 + 39 * 2);
}

#[test]
fn properties_descriptor_bytes() {
    let desc = MSPropertiesOSDescriptor {
        bcdVersion: 0x0100,
        wIndex: 5,
        wCount: 1,
        features: vec![guid_feature()],
    };
    let total = desc.len();
    let mut buf = vec![0xEEu8; total + 5];
    desc.write_to_buf(&mut buf);

    let mut expected: Vec<u8> = Vec::new();
    expected.extend_from_slice(&(total as u32).to_le_bytes());
    expected.extend_from_slice(&0x0100u16.to_le_bytes());
    expected.extend_from_slice(&5u16.to_le_bytes());
    expected.extend_from_slice(&1u16.to_le_bytes());
    let feature = guid_feature();
    expected.extend_from_slice(&(feature.len() as u32).to_le_bytes());
    expected.extend_from_slice(&1u32.to_le_bytes());
    expected.extend_from_slice(&(40u16).to_le_bytes());
    for unit in "DeviceInterfaceGUID\x00".encode_utf16() {
        expected.extend_from_slice(&unit.to_le_bytes());
    }
    expected.extend_from_slice(&(78u32).to_le_bytes());
    for unit in "{183BE48C-1C39-4612-92EB-650C4450C1D3}\x00".encode_utf16() {
        expected.extend_from_slice(&unit.to_le_bytes());
    }
    // The tail of the buffer is untouched.
    expected.extend_from_slice(&[0xEE; 5]);
    assert_eq!(buf, expected);
}

#[test]
fn feature_write_to_buf_preserves_tail() {
    let feature = guid_feature();
    let len = feature.len();
    let mut buf = vec![0xAAu8; len + 3];
    feature.write_to_buf(&mut buf);
    assert_eq!(&buf[len..], &[0xAA, 0xAA, 0xAA]);
    assert_eq!(&buf[..4], &(len as u32).to_le_bytes());
}
