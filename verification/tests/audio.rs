use alicepi::protocol::{AudioOutput, AudioStreamFormat, VoiceInputEvent, VoiceOutputCommand};
use alicepi::speech_rec::{SpeechRecTask, TranscribeRequest};
use alicepi::voice_input::{
    sample_from_le_bytes, sample_to_le_bytes, samples_from_le_bytes, samples_to_le_bytes,
    AudioPipeline, VadStatus, VadTracker,
};
use alicepi::voice_output::{
    buffered_read, min_mp3_chunk_bytes, min_pcm_chunk_bytes, pcm_bytes_to_millis, read_must_wait,
    should_emit_finished, silence_pcm_bytes, stream_seek, Playback, SeekError, SeekWhence,
    SinkAction, StreamTimings, VoiceOutputWorker,
};

#[test]
fn sample_codec_round_trips() {
    for v in [0i16, 1, -1, 127, -128, 32_767, -32_768, 12_345, -20_000] {
        let (lo, hi) = sample_to_le_bytes(v);
        assert_eq!(sample_from_le_bytes(lo, hi), v);
        assert_eq!(v.to_le_bytes(), [lo, hi]);
    }
    let samples = vec![1i16, -2, 300, -400];
    let bytes = samples_to_le_bytes(&samples);
    assert_eq!(bytes.len(), 8);
    assert_eq!(samples_from_le_bytes(&bytes), samples);
}

#[test]
fn pipeline_cuts_whole_chunks_and_flushes_the_rest() {
    // 512-frame mono chunks: 1200 samples yield two full chunks and a
    // 176-sample flush — the sample count rounded down to a multiple
    // of the chunk size, plus one remainder.
    let mut p = AudioPipeline::new(512, 1);
    let chunks = p.push_samples((0..1200).map(|i| i as i16).collect());
    assert_eq!(chunks.len(), 2);
    assert!(chunks.iter().all(|c| c.len() == 512));
    assert_eq!(chunks[0][0], 0);
    assert_eq!(chunks[1][511], 1023);
    let leftover = p.finish().expect("remainder expected");
    assert_eq!(leftover.len(), 176);
    assert_eq!(leftover[0], 1024);
    assert!(p.finish().is_none());
}

#[test]
fn pipeline_emits_every_byte_exactly_once() {
    let mut p = AudioPipeline::new(4, 2);
    let mut out: Vec<i16> = Vec::new();
    for block in [vec![1i16, 2, 3], vec![4, 5, 6, 7, 8, 9], vec![10]] {
        for c in p.push_samples(block) {
            assert_eq!(c.len(), 8);
            out.extend_from_slice(&c);
        }
    }
    if let Some(rest) = p.finish() {
        out.extend_from_slice(&rest);
    }
    assert_eq!(out, (1..=10).collect::<Vec<i16>>());
}

#[test]
fn vad_tracker_closes_the_utterance_after_hangover() {
    let mut t = VadTracker::new(500, 0);
    let o = t.process_chunk(true, 1_000, vec![1, 2]);
    assert!(matches!(
        o.events.as_slice(),
        [VoiceInputEvent::VadSpeech, VoiceInputEvent::AudioChunk(_)]
    ));
    assert!(matches!(t.last_status, VadStatus::Speech));

    // Silence inside the hangover keeps the audio flowing.
    let o = t.process_chunk(false, 1_300, vec![3, 4]);
    assert!(matches!(o.events.as_slice(), [VoiceInputEvent::AudioChunk(_)]));
    assert!(matches!(t.last_status, VadStatus::Hangover));
    assert!(!o.reset_engine);

    // Silence past the hangover ends the utterance.
    let o = t.process_chunk(false, 1_600, vec![5, 6]);
    assert!(matches!(
        o.events.as_slice(),
        [VoiceInputEvent::AudioEnded, VoiceInputEvent::VadSilence]
    ));
    assert!(o.reset_engine);
    assert!(matches!(t.last_status, VadStatus::Silence));
}

#[test]
fn vad_grace_window_forwards_initial_silence() {
    let mut t = VadTracker::new(500, 2_000);
    t.begin_listen(10_000);
    let o = t.process_chunk(false, 10_500, vec![1, 2]);
    assert!(matches!(o.events.as_slice(), [VoiceInputEvent::AudioChunk(_)]));
    assert!(matches!(t.last_status, VadStatus::Hangover));
    let o = t.process_chunk(false, 12_500, vec![3, 4]);
    assert!(matches!(
        o.events.as_slice(),
        [VoiceInputEvent::AudioEnded, VoiceInputEvent::VadSilence]
    ));
    assert!(o.reset_engine);
}

#[test]
fn vad_force_silence_only_closes_open_utterances() {
    let mut t = VadTracker::new(500, 0);
    let o = t.force_silence();
    assert!(o.events.is_empty());
    t.process_chunk(true, 0, vec![1, 2]);
    let o = t.force_silence();
    assert!(matches!(
        o.events.as_slice(),
        [VoiceInputEvent::AudioEnded, VoiceInputEvent::VadSilence]
    ));
}

#[test]
fn speech_rec_buffers_and_tags_requests() {
    let mut t = SpeechRecTask::new(16_000, 1, 0);
    let fx = t.handle_command(alicepi::protocol::SpeechRecCommand::AudioChunk(vec![1, 0, 2]));
    match fx.requests.as_slice() {
        [TranscribeRequest::AudioChunk { generation, audio, sample_rate, channels }] => {
            assert_eq!(*generation, 0);
            assert_eq!(audio, &vec![1i16]);
            assert_eq!(*sample_rate, 16_000);
            assert_eq!(*channels, 1);
        }
        other => panic!("unexpected requests: {:?}", other),
    }
    // The odd byte waits for its partner.
    let fx = t.handle_command(alicepi::protocol::SpeechRecCommand::AudioChunk(vec![0]));
    match fx.requests.as_slice() {
        [TranscribeRequest::AudioChunk { audio, .. }] => assert_eq!(audio, &vec![2i16]),
        other => panic!("unexpected requests: {:?}", other),
    }

    let fx = t.handle_command(alicepi::protocol::SpeechRecCommand::AudioEnded);
    match fx.requests.as_slice() {
        [TranscribeRequest::End { generation }] => assert_eq!(*generation, 0),
        other => panic!("unexpected requests: {:?}", other),
    }
    let saved = fx.save.expect("utterance offered for capture");
    assert_eq!(saved.audio, vec![1i16, 2]);
    assert_eq!(saved.request_id, 1);
}

#[test]
fn speech_rec_appends_the_silence_tail() {
    let mut t = SpeechRecTask::new(16_000, 1, 500);
    t.handle_command(alicepi::protocol::SpeechRecCommand::AudioChunk(vec![1, 0]));
    let fx = t.handle_command(alicepi::protocol::SpeechRecCommand::AudioEnded);
    match fx.requests.as_slice() {
        [TranscribeRequest::AudioChunk { audio, .. }, TranscribeRequest::End { .. }] => {
            assert_eq!(audio.len(), 8_000);
            assert!(audio.iter().all(|s| *s == 0));
        }
        other => panic!("unexpected requests: {:?}", other),
    }
    assert_eq!(fx.save.unwrap().audio.len(), 8_001);
}

#[test]
fn reset_discards_transcripts_cut_before_it() {
    let mut t = SpeechRecTask::new(16_000, 1, 500);
    let pending_generation = t.generation;
    let fx = t.handle_command(alicepi::protocol::SpeechRecCommand::Reset);
    assert!(matches!(fx.requests.as_slice(), [TranscribeRequest::Reset]));
    assert!(t
        .handle_response(pending_generation, Ok("late words".to_string()), true)
        .is_none());
    assert!(t.handle_response(t.generation, Ok("   ".to_string()), true).is_none());
    assert!(t.handle_response(t.generation, Err("model failed".to_string()), true).is_none());
    let ev = t.handle_response(t.generation, Ok("hello".to_string()), true);
    match ev {
        Some(alicepi::protocol::SpeechRecEvent::Text { text, is_final }) => {
            assert_eq!(text, "hello");
            assert!(is_final);
        }
        other => panic!("unexpected event: {:?}", other),
    }
}

#[test]
fn pcm_stream_plays_exactly_what_was_sent() {
    // One second of 16 kHz mono PCM in uneven chunks: the sink receives
    // the 50 ms prebuffer plus every byte sent, 33 600 in all.
    let mut w = VoiceOutputWorker::new();
    let out = w.handle_command(VoiceOutputCommand::StartStream {
        format: AudioStreamFormat::Pcm { sample_rate: 16_000, channels: 1 },
    });
    assert!(matches!(
        out.as_slice(),
        [SinkAction::StopCurrent, SinkAction::StartPcmSink { sample_rate: 16_000, channels: 1 }]
    ));

    let mut sink_bytes: usize = 0;
    let mut sent: usize = 0;
    let mut chunk_len = 1_111usize;
    while sent < 32_000 {
        let n = chunk_len.min(32_000 - sent);
        chunk_len = chunk_len * 2 % 3_000 + 1;
        let out = w.handle_command(VoiceOutputCommand::StreamChunk { data: vec![7u8; n] });
        sent += n;
        for a in out {
            match a {
                SinkAction::AppendPcm { data } => sink_bytes += data.len(),
                other => panic!("unexpected action: {:?}", other),
            }
        }
    }
    let out = w.handle_command(VoiceOutputCommand::EndStream);
    let mut saw_wait = false;
    for a in out {
        match a {
            SinkAction::AppendPcm { data } => sink_bytes += data.len(),
            SinkAction::WaitFinish { .. } => saw_wait = true,
            other => panic!("unexpected action: {:?}", other),
        }
    }
    assert!(saw_wait);
    assert_eq!(sink_bytes, 33_600);
}

#[test]
fn two_stops_act_as_one() {
    let mut w = VoiceOutputWorker::new();
    w.handle_command(VoiceOutputCommand::StartStream { format: AudioStreamFormat::Mp3 });
    let out1 = w.handle_command(VoiceOutputCommand::Stop);
    assert!(matches!(out1.as_slice(), [SinkAction::StopCurrent]));
    assert!(matches!(w.playback, Playback::Quiet));
    let out2 = w.handle_command(VoiceOutputCommand::Stop);
    assert!(matches!(out2.as_slice(), [SinkAction::StopCurrent]));
    assert!(matches!(w.playback, Playback::Quiet));
}

#[test]
fn new_playback_always_stops_the_old_one() {
    let mut w = VoiceOutputWorker::new();
    let g0 = w.playback_generation;
    let out = w.handle_command(VoiceOutputCommand::PlayAudio {
        audio: AudioOutput::Mp3 { data: vec![0xff, 0xfb, 0x90, 0x00] },
    });
    assert!(matches!(out[0], SinkAction::StopCurrent));
    assert!(matches!(out[1], SinkAction::PlayMp3 { .. }));
    assert!(matches!(out[2], SinkAction::WaitFinish { .. }));
    assert_ne!(w.playback_generation, g0);
    assert!(should_emit_finished(w.playback_generation, w.playback_generation));
    assert!(!should_emit_finished(w.playback_generation, g0));
}

#[test]
fn pcm_buffers_are_truncated_to_whole_samples() {
    let mut w = VoiceOutputWorker::new();
    let out = w.handle_command(VoiceOutputCommand::PlayAudio {
        audio: AudioOutput::Pcm { data: vec![1, 2, 3], sample_rate: 8_000, channels: 1 },
    });
    match &out[1] {
        SinkAction::PlayPcm { data, .. } => assert_eq!(data, &vec![1, 2]),
        other => panic!("unexpected action: {:?}", other),
    }
    // An empty (after truncation) buffer plays nothing.
    let out = w.handle_command(VoiceOutputCommand::PlayAudio {
        audio: AudioOutput::Pcm { data: vec![9], sample_rate: 8_000, channels: 1 },
    });
    assert!(matches!(out.as_slice(), [SinkAction::StopCurrent]));
    assert!(matches!(w.playback, Playback::Quiet));
}

#[test]
fn mp3_stream_feeds_the_decoder_in_batches() {
    let mut w = VoiceOutputWorker::new();
    let out = w.handle_command(VoiceOutputCommand::StartStream { format: AudioStreamFormat::Mp3 });
    assert!(matches!(
        out.as_slice(),
        [SinkAction::StopCurrent, SinkAction::StartMp3Decoder { .. }]
    ));
    let out = w.handle_command(VoiceOutputCommand::StreamChunk { data: vec![1, 2] });
    assert!(out.is_empty());
    let out = w.handle_command(VoiceOutputCommand::StreamChunk { data: vec![3, 4] });
    assert!(matches!(
        out.as_slice(),
        [SinkAction::FeedMp3 { data }] if data == &vec![1, 2, 3, 4]
    ));
    let out = w.handle_command(VoiceOutputCommand::EndStream);
    assert!(matches!(out.as_slice(), [SinkAction::EndMp3Feed]));
}

#[test]
fn stream_thresholds_follow_the_format() {
    assert_eq!(min_pcm_chunk_bytes(16_000, 1), 1_280);
    assert_eq!(min_pcm_chunk_bytes(48_000, 2), 7_680);
    assert_eq!(min_pcm_chunk_bytes(0, 0), 2);
    assert_eq!(min_mp3_chunk_bytes(), 4);
    assert_eq!(silence_pcm_bytes(16_000, 1, 50).len(), 1_600);
    assert!(silence_pcm_bytes(16_000, 1, 50).iter().all(|b| *b == 0));
}

#[test]
fn stream_reader_seeks_only_within_known_bytes() {
    assert_eq!(stream_seek(100, 10, false, SeekWhence::Start(40)), Ok(40));
    assert_eq!(stream_seek(100, 10, false, SeekWhence::Current(-10)), Ok(0));
    assert_eq!(
        stream_seek(100, 10, false, SeekWhence::Current(-11)),
        Err(SeekError::InvalidSeek)
    );
    assert_eq!(stream_seek(100, 10, false, SeekWhence::End(-1)), Err(SeekError::EndUnknown));
    assert_eq!(stream_seek(100, 10, true, SeekWhence::End(-1)), Ok(99));
    assert_eq!(stream_seek(100, 10, true, SeekWhence::End(1)), Err(SeekError::InvalidSeek));
    assert_eq!(stream_seek(100, 10, false, SeekWhence::Start(101)), Err(SeekError::InvalidSeek));
}

#[test]
fn stream_reader_reads_from_the_cursor() {
    let buffer = vec![10u8, 11, 12, 13];
    assert_eq!(buffered_read(&buffer, 1, 2), vec![11, 12]);
    assert_eq!(buffered_read(&buffer, 3, 10), vec![13]);
    assert_eq!(buffered_read(&buffer, 4, 1), Vec::<u8>::new());
    assert!(read_must_wait(4, 4, false));
    assert!(!read_must_wait(4, 4, true));
    assert!(!read_must_wait(4, 2, false));
}

#[test]
fn timings_estimate_the_pcm_duration() {
    let mut t = StreamTimings::new(0, Some((16_000, 1)));
    let first = t.mark_chunk(5, 16_000);
    assert!(first);
    let second = t.mark_chunk(9, 16_000);
    assert!(!second);
    assert_eq!(t.chunk_count, 2);
    assert_eq!(t.total_bytes, 32_000);
    assert_eq!(t.pcm_estimated_millis(), Some(1_000));
    let t2 = StreamTimings::new(0, None);
    assert_eq!(t2.pcm_estimated_millis(), None);
}

#[test]
fn stopping_a_live_stream_silences_its_finish() {
    // A lid close reaches voice output as Stop while MP3 is streaming:
    // the sink stops, the stream is gone, and the old playback's
    // finish can never be announced because its generation is stale.
    let mut w = VoiceOutputWorker::new();
    w.handle_command(VoiceOutputCommand::StartStream { format: AudioStreamFormat::Mp3 });
    let captured = w.playback_generation;
    let out = w.handle_command(VoiceOutputCommand::StreamChunk { data: vec![0u8; 8] });
    assert!(matches!(out.as_slice(), [SinkAction::FeedMp3 { .. }]));
    let out = w.handle_command(VoiceOutputCommand::Stop);
    assert!(matches!(out.as_slice(), [SinkAction::StopCurrent]));
    assert!(matches!(w.playback, Playback::Quiet));
    assert!(!should_emit_finished(w.playback_generation, captured));
}

#[test]
fn sink_bytes_convert_to_play_time() {
    // One second of content plus the 50 ms prebuffer.
    assert_eq!(pcm_bytes_to_millis(33_600, 16_000, 1), 1_050);
    assert_eq!(pcm_bytes_to_millis(32_000, 16_000, 1), 1_000);
    assert_eq!(pcm_bytes_to_millis(0, 16_000, 1), 0);
    assert_eq!(pcm_bytes_to_millis(7, 0, 0), 3_000);
}
