use teltonika_codec8::imei::parse_teltonika_imei;
use teltonika_codec8::parser::parse_teltonika_codec_8;
use teltonika_codec8::{AVLData, GPSElement, IoElement, IoElementValue, TeltonikaCodec8};

/// Fixed-point degrees, as sent, to degrees.
fn degrees(raw: i32) -> f64 {
    raw as f64 / 1e7f64
}

#[test]
fn test_imei_parse() {
    let sample_imei = [
        0, 15, 51, 53, 54, 51, 48, 55, 48, 52, 50, 52, 52, 49, 48, 49, 51,
    ];
    assert_eq!(
        parse_teltonika_imei(&sample_imei).unwrap().1,
        "356307042441013"
    )
}

#[test]
fn test_data_parse_1() {
    let input3 = "000000000000003608010000016B40D8EA30010000000000000000000000000000000105021503010101425E0F01F10000601A014E0000000000000000010000C7CF";
    let decoded = hex::decode(input3).unwrap();
    let parsed_data = parse_teltonika_codec_8(&decoded).unwrap().1;
    assert_eq!(degrees(parsed_data.avl_data[0].gps.longitude), 0.0);
    assert_eq!(degrees(parsed_data.avl_data[0].gps.latitude), 0.0);
    assert_eq!(
        parsed_data,
        TeltonikaCodec8 {
            data_length: 54,
            codec_id: 8,
            number_of_data: 1,
            avl_data: [AVLData {
                timestamp: 1560161086000,
                priority: 1,
                gps: GPSElement {
                    longitude: 0,
                    latitude: 0,
                    altitude: 0,
                    angle: 0,
                    visible_satellites: 0,
                    speed: 0
                },
                io: IoElement {
                    event_io_id: 1,
                    number_of_total_io: 5,
                    number_of_1_byte_elements: 2,
                    io_1_byte_elements: Some(
                        [
                            IoElementValue { id: 21, value: 3 },
                            IoElementValue { id: 1, value: 1 }
                        ]
                        .to_vec()
                    ),
                    number_of_2_byte_elements: 1,
                    io_2_byte_elements: Some(
                        [IoElementValue {
                            id: 66,
                            value: 24079
                        }]
                        .to_vec()
                    ),
                    number_of_4_byte_elements: 1,
                    io_4_byte_elements: Some(
                        [IoElementValue {
                            id: 241,
                            value: 24602
                        }]
                        .to_vec()
                    ),
                    number_of_8_byte_elements: 1,
                    io_8_byte_elements: Some([IoElementValue { id: 78, value: 0 }].to_vec())
                }
            }]
            .to_vec()
        }
    )
}

fn io_of_second_fixture(value_21: u64, value_22: u64, value_70: u64) -> IoElement {
    IoElement {
        event_io_id: 0,
        number_of_total_io: 4,
        number_of_1_byte_elements: 3,
        io_1_byte_elements: Some(
            [
                IoElementValue { id: 1, value: 1 },
                IoElementValue { id: 21, value: value_21 },
                IoElementValue { id: 22, value: value_22 },
            ]
            .to_vec(),
        ),
        number_of_2_byte_elements: 0,
        io_2_byte_elements: Some([].to_vec()),
        number_of_4_byte_elements: 1,
        io_4_byte_elements: Some([IoElementValue { id: 70, value: value_70 }].to_vec()),
        number_of_8_byte_elements: 0,
        io_8_byte_elements: Some([].to_vec()),
    }
}

#[test]
fn test_data_parse_2() {
    let input3 = "0000000000000036080400000113fc208dff000f14f650209cca80006f00d60400040004030101150316030001460000015d0000000113fc17610b000f14ffe0209cc580006e00c00500010004030101150316010001460000015e0000000113fc284945000f150f00209cd200009501080400000004030101150016030001460000015d0000000113fc267c5b000f150a50209cccc0009300680400000004030101150016030001460000015b00040000F991";
    let decoded = hex::decode(input3).unwrap();
    let parsed_data = parse_teltonika_codec_8(&decoded).unwrap().1;
    let coordinates: Vec<(f64, f64)> = parsed_data
        .avl_data
        .iter()
        .map(|record| (degrees(record.gps.longitude), degrees(record.gps.latitude)))
        .collect();
    assert_eq!(
        coordinates,
        vec![
            (25.3032016, 54.7146368),
            (25.3034464, 54.7145088),
            (25.3038336, 54.7148288),
            (25.3037136, 54.7146944),
        ]
    );
    assert_eq!(
        parsed_data,
        TeltonikaCodec8 {
            data_length: 54,
            codec_id: 8,
            number_of_data: 4,
            avl_data: [
                AVLData {
                    timestamp: 1185345998335,
                    priority: 0,
                    gps: GPSElement {
                        longitude: 253032016,
                        latitude: 547146368,
                        altitude: 111,
                        angle: 214,
                        visible_satellites: 4,
                        speed: 4
                    },
                    io: io_of_second_fixture(3, 3, 349)
                },
                AVLData {
                    timestamp: 1185345397003,
                    priority: 0,
                    gps: GPSElement {
                        longitude: 253034464,
                        latitude: 547145088,
                        altitude: 110,
                        angle: 192,
                        visible_satellites: 5,
                        speed: 1
                    },
                    io: io_of_second_fixture(3, 1, 350)
                },
                AVLData {
                    timestamp: 1185346505029,
                    priority: 0,
                    gps: GPSElement {
                        longitude: 253038336,
                        latitude: 547148288,
                        altitude: 149,
                        angle: 264,
                        visible_satellites: 4,
                        speed: 0
                    },
                    io: io_of_second_fixture(0, 3, 349)
                },
                AVLData {
                    timestamp: 1185346387035,
                    priority: 0,
                    gps: GPSElement {
                        longitude: 253037136,
                        latitude: 547146944,
                        altitude: 147,
                        angle: 104,
                        visible_satellites: 4,
                        speed: 0
                    },
                    io: io_of_second_fixture(0, 3, 347)
                }
            ]
            .to_vec()
        }
    )
}
