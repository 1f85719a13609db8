//! Reassembly of packets from fragmented reads.

use x11rb::packet::PacketReader;

/// A 32-byte error packet with the given wire sequence.
fn error_packet(wire_seq: u16) -> Vec<u8> {
    let mut p = vec![0u8; 32];
    p[0] = 0;
    p[1] = 11;
    p[2] = (wire_seq % 256) as u8;
    p[3] = (wire_seq / 256) as u8;
    p
}

/// A reply packet with the given wire sequence and extra length in 4-byte
/// units.
fn reply_packet(wire_seq: u16, extra_units: u32) -> Vec<u8> {
    let mut p = vec![0u8; 32 + 4 * extra_units as usize];
    p[0] = 1;
    p[2] = (wire_seq % 256) as u8;
    p[3] = (wire_seq / 256) as u8;
    p[4] = (extra_units & 0xff) as u8;
    p[5] = ((extra_units >> 8) & 0xff) as u8;
    p[6] = ((extra_units >> 16) & 0xff) as u8;
    p[7] = ((extra_units >> 24) & 0xff) as u8;
    for (i, b) in p.iter_mut().enumerate().skip(8) {
        *b = (i % 251) as u8;
    }
    p
}

/// Feed a whole byte stream in the given chunk sizes and collect every
/// completed packet.
fn feed_in_chunks(stream: &[u8], chunk_sizes: &[usize]) -> Vec<Vec<u8>> {
    assert_eq!(chunk_sizes.iter().sum::<usize>(), stream.len());
    let mut reader = PacketReader::new();
    let mut packets = Vec::new();
    let mut offset = 0;
    for &size in chunk_sizes {
        let chunk: Vec<u8> = stream[offset..offset + size].to_vec();
        offset += size;
        let mut start = 0;
        loop {
            let (used, packet) = reader.try_read_packet(&chunk, start);
            start += used;
            match packet {
                Some(p) => packets.push(p),
                None => break,
            }
        }
        assert_eq!(start, chunk.len());
    }
    packets
}

#[test]
fn fixed_packet_single_read() {
    let p = error_packet(7);
    let got = feed_in_chunks(&p, &[32]);
    assert_eq!(got, vec![p]);
}

#[test]
fn fixed_packet_three_reads_10_10_12() {
    // A 32-byte error packet delivered across reads of 10, 10 and 12
    // bytes reassembles identically to one 32-byte read.
    let p = error_packet(3);
    let whole = feed_in_chunks(&p, &[32]);
    let split = feed_in_chunks(&p, &[10, 10, 12]);
    assert_eq!(split, whole);
    assert_eq!(split[0].len(), 32);
}

#[test]
fn reply_split_at_byte_20() {
    // A reply with three extra units (44 bytes) delivered in two reads
    // split at byte 20 reassembles to the same 44-byte packet as a single
    // read.
    let p = reply_packet(5, 3);
    assert_eq!(p.len(), 44);
    let whole = feed_in_chunks(&p, &[44]);
    let split = feed_in_chunks(&p, &[20, 24]);
    assert_eq!(split, whole);
    assert_eq!(split[0].len(), 44);
}

#[test]
fn byte_at_a_time_fixed_packet() {
    let p = error_packet(9);
    let whole = feed_in_chunks(&p, &[32]);
    let bytewise = feed_in_chunks(&p, &vec![1; 32]);
    assert_eq!(bytewise, whole);
}

#[test]
fn byte_at_a_time_variable_packet() {
    let p = reply_packet(2, 4);
    assert_eq!(p.len(), 48);
    let whole = feed_in_chunks(&p, &[48]);
    let bytewise = feed_in_chunks(&p, &vec![1; 48]);
    assert_eq!(bytewise, whole);
}

#[test]
fn declared_length_is_honoured_exactly() {
    // A reply declaring L extra units yields a packet of exactly
    // 32 + 4 * L bytes.
    for l in [0u32, 1, 2, 7] {
        let p = reply_packet(1, l);
        let got = feed_in_chunks(&p, &[p.len()]);
        assert_eq!(got.len(), 1);
        assert_eq!(got[0].len(), 32 + 4 * l as usize);
    }
}

#[test]
fn no_packet_from_truncated_stream() {
    // A stream that ends mid-packet never yields a short packet.
    let p = reply_packet(1, 3);
    let truncated: Vec<u8> = p[..30].to_vec();
    let mut reader = PacketReader::new();
    let (used, packet) = reader.try_read_packet(&truncated, 0);
    assert_eq!(used, 30);
    assert!(packet.is_none());
}

#[test]
fn two_packets_in_one_read() {
    let a = error_packet(1);
    let b = reply_packet(2, 1);
    let mut stream = a.clone();
    stream.extend_from_slice(&b);
    let got = feed_in_chunks(&stream, &[stream.len()]);
    assert_eq!(got, vec![a, b]);
}

#[test]
fn extra_length_reads_the_length_field() {
    let p = reply_packet(1, 6);
    assert_eq!(x11rb::packet::extra_length(&p), 24);
    let e = error_packet(1);
    assert_eq!(x11rb::packet::extra_length(&e), 0);
    // A generic event is framed like a reply.
    let mut g = reply_packet(1, 2);
    g[0] = 35;
    assert_eq!(x11rb::packet::extra_length(&g), 8);
    // The sent-event bit is masked off when classifying.
    g[0] = 35 | 0x80;
    assert_eq!(x11rb::packet::extra_length(&g), 8);
}
