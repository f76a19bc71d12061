use vstd::prelude::*;

use crate::text::same_text;

verus! {

/// Short codes of the standard emoji set, which a workspace cannot take for
/// its own emoji, separated by spaces.
pub const STANDARD_SHORTCODES: &'static str = "\
        +1 -1 100 1234 8ball a ab abc abcd accept admission_tickets adult aerial_tramway \
        airplane airplane_arriving airplane_departure alarm_clock alembic alien ambulance \
        anchor angel anger angry anguished ant apple aquarius aries arrow_backward \
        arrow_double_down arrow_double_up arrow_down arrow_down_small arrow_forward \
        arrow_heading_down arrow_heading_up arrow_left arrow_lower_left arrow_lower_right \
        arrow_right arrow_right_hook arrow_up arrow_up_down arrow_up_small arrow_upper_left \
        arrow_upper_right arrows_clockwise arrows_counterclockwise art articulated_lorry artist \
        astonished astronaut atm atom_symbol auto_rickshaw avocado axe b baby baby_chick \
        baby_symbol back bacon badger badminton_racquet_and_shuttlecock bagel baggage_claim \
        baguette_bread balloon bamboo banana bangbang bank bar_chart barber barely_sunny \
        baseball basketball bat bathtub battery beach_with_umbrella bear bed bee beer beers \
        beetle beginner bell bellhop_bell bike bikini biohazard_sign bird birthday black_circle \
        black_heart black_joker black_large_square black_medium_square black_small_square \
        black_square_button blossom blowfish blue_car blue_heart blush boar boat bomb book \
        bookmark books boom bouquet bow bowling boy brain bread breast-feeding bride_with_veil \
        bridge_at_night briefcase broccoli broken_heart brown_heart bug bulb bullettrain_front \
        bullettrain_side burrito bus busstop bust_in_silhouette busts_in_silhouette butter \
        butterfly cactus cake calendar call_me_hand camel camera camping cancer candy canoe \
        capital_abcd capricorn car carousel_horse carrot castle cat cat2 cd champagne \
        chart_with_downwards_trend chart_with_upwards_trend checkered_flag cheese_wedge \
        cherries cherry_blossom chess_pawn chestnut chicken child children_crossing chipmunk \
        chocolate_bar christmas_tree church cinema circus_tent city_sunrise city_sunset cl clap \
        clinking_glasses clipboard clock1 clock10 clock1030 clock11 clock1130 clock12 clock1230 \
        clock130 clock2 clock230 clock3 clock330 clock4 clock430 clock5 clock530 clock6 \
        clock630 clock7 clock730 clock8 clock830 clock9 clock930 closed_umbrella cloud \
        clown_face clubs cn cocktail coconut coffee cold_face cold_sweat collision comet \
        computer confetti_ball confounded confused congratulations construction \
        construction_worker cook cookie cool cop copyright corn couple couple_with_heart \
        couplekiss cow cow2 credit_card crescent_moon cricket cricket_bat_and_ball crocodile \
        croissant crossed_fingers crown cry crying_cat_face crystal_ball cucumber cupcake cupid \
        curling_stone curly_loop currency_exchange custard customs cut_of_meat cyclone dancer \
        dancers dart dash date de deciduous_tree deer desert detective \
        diamond_shape_with_a_dot_inside diamonds disappointed disappointed_relieved diving_mask \
        dizzy dizzy_face dna do_not_litter dog dog2 dollar dolls dolphin door doughnut \
        dove_of_peace dragon dragon_face dress dromedary_camel drooling_face droplet \
        drum_with_drumsticks duck dvd eagle ear ear_of_rice earth_africa earth_americas \
        earth_asia egg eggplant eight eight_pointed_black_star eight_spoked_asterisk \
        electric_plug elephant elf email end envelope es evergreen_tree exclamation \
        exploding_head expressionless eye eyeglasses eyes face_palm face_vomiting \
        face_with_cowboy_hat face_with_hand_over_mouth face_with_head_bandage face_with_monocle \
        face_with_raised_eyebrow face_with_rolling_eyes face_with_symbols_on_mouth \
        face_with_thermometer facepunch factory_worker fairy fallen_leaf family farmer \
        fast_forward fearful feet female_elf female_fairy female_genie female_mage female_sign \
        female_vampire female_zombie ferris_wheel ferry field_hockey_stick_and_ball file_folder \
        fire fire_engine firecracker firefighter fireworks first_place_medal first_quarter_moon \
        first_quarter_moon_with_face fish fishing_pole_and_fish fist five flag-ca flag-cn \
        flag-de flag-es flag-fr flag-gb flag-it flag-jp flag-kr flag-ru flag-us flags flamingo \
        flashlight fleur_de_lis flipper flower_playing_cards flushed flying_disc flying_saucer \
        fog foggy football footprints fountain four four_leaf_clover fox_face fr \
        frame_with_picture free fried_egg fries frog frowning fuelpump full_moon \
        full_moon_with_face game_die garlic gb gear gem gemini genie ghost gift gift_heart \
        giraffe_face girl globe_with_meridians goal_net goat golf gorilla grapes green_apple \
        green_heart grey_exclamation grey_question grimacing grin grinning guardsman guitar \
        haircut hamburger hammer hamster hand handshake hankey hash hatched_chick \
        hatching_chick headphones health_worker hear_no_evil heart heart_decoration heart_eyes \
        heart_eyes_cat heartbeat heartpulse hearts heavy_check_mark heavy_division_sign \
        heavy_dollar_sign heavy_exclamation_mark heavy_heart_exclamation_mark_ornament \
        heavy_minus_sign heavy_multiplication_x heavy_plus_sign hedgehog helicopter herb \
        hibiscus high_brightness hippopotamus hole honey_pot honeybee horse \
        hospital hot_face hot_pepper hotdog hotel hotsprings hourglass hourglass_flowing_sand \
        house hugging_face hushed i_love_you_hand_sign ice_hockey_stick_and_puck ice_skate id \
        ideograph_advantage imp inbox_tray incoming_envelope infinity information_desk_person \
        information_source innocent interrobang iphone it jack_o_lantern japanese_goblin \
        japanese_ogre jeans jigsaw joy joy_cat joystick jp judge kangaroo key keyboard \
        keycap_star keycap_ten kiss kissing kissing_cat kissing_closed_eyes kissing_heart \
        kissing_smiling_eyes kite kiwifruit koala koko kr label lacrosse ladybug \
        large_blue_circle large_blue_diamond large_brown_circle large_green_circle \
        large_orange_circle large_orange_diamond large_purple_circle large_yellow_circle \
        last_quarter_moon last_quarter_moon_with_face latin_cross laughing leaves \
        left-facing_fist left_luggage left_right_arrow leftwards_arrow_with_hook lemon leo \
        leopard libra light_rail lightning link lion_face lips lipstick lizard llama lock \
        lollipop loop loud_sound loudspeaker love_letter low_brightness luggage lying_face mag \
        mage magnet mahjong mailbox male_elf male_fairy male_genie male_mage male_sign \
        male_vampire male_zombie man man_dancing man_with_gua_pi_mao man_with_turban mango \
        mantelpiece_clock manual_wheelchair maple_leaf mask massage meat_on_bone mechanic medal \
        medical_symbol mega melon memo menorah_with_nine_branches mens mermaid merman merperson \
        metro microbe microphone microscope middle_finger milky_way minibus mobile_phone_off \
        money_mouth_face moneybag monkey monkey_face monorail mosque mosquito mostly_sunny \
        motor_boat motor_scooter motorized_wheelchair motorway mount_fuji mountain_cableway \
        mountain_railway mouse mouse2 movie_camera moyai mrs_claus muscle mushroom musical_note \
        mute nail_care name_badge nauseated_face nazar_amulet necktie \
        negative_squared_cross_mark nerd_face neutral_face new new_moon new_moon_with_face \
        newspaper night_with_stars nine ninja no_bell no_bicycles no_entry no_entry_sign \
        no_good no_mobile_phones no_mouth no_pedestrians no_smoking non-potable_water nose \
        notebook notes nut_and_bolt o o2 ocean octopus office office_worker oil_drum ok ok_hand \
        ok_woman older_adult older_man older_woman om_symbol on oncoming_automobile \
        oncoming_bus oncoming_police_car oncoming_taxi one onion open_hands open_mouth \
        ophiuchus orange_heart orthodox_cross otter outbox_tray owl ox package palm_tree \
        palms_up_together pancakes panda_face paperclip parachute parking parrot \
        part_alternation_mark partly_sunny partly_sunny_rain partying_face passenger_ship \
        passport_control paw_prints peace_symbol peach peacock peanuts pear pencil pencil2 \
        penguin pensive performing_arts persevere person_frowning person_with_blond_hair \
        person_with_pouting_face phone pick pie pig pig2 pig_nose pill pilot pinching_hand \
        pineapple pirate_flag pisces pizza pleading_face point_down point_left point_right \
        point_up point_up_2 police_car poodle poop popcorn potable_water potato poultry_leg \
        pouting_cat pray pregnant_woman pretzel prince princess printer punch purple_heart \
        pushpin put_litter_in_its_place question rabbit rabbit2 raccoon racehorse racing_car \
        racing_motorcycle radio radio_button radioactive_sign rage railway_car railway_track \
        rain_cloud rainbow rainbow-flag raised_back_of_hand raised_hand \
        raised_hand_with_fingers_splayed raised_hands raising_hand ram ramen rat recycle \
        red_car red_circle red_envelope registered relaxed relieved reminder_ribbon repeat \
        repeat_one restroom reversed_hand_with_middle_finger_extended revolving_hearts rewind \
        rhinoceros ribbon rice rice_scene right-facing_fist ring robot_face rocket \
        roller_coaster rolling_on_the_floor_laughing rooster rose rosette rotating_light \
        round_pushpin ru rugby_football runner running running_shirt_with_sash sa sagittarius \
        sailboat sake salt sandwich santa satellite satellite_antenna satisfied sauropod \
        saxophone school scientist scissors scooter scorpion scorpius scream scream_cat seal \
        seat second_place_medal secret see_no_evil seedling selfie seven shamrock shark sheep \
        shell ship shirt shit shopping_trolley shower shrug shushing_face sign_of_the_horns \
        signal_strength singer six six_pointed_star ski skull skull_and_crossbones skunk sled \
        sleeping sleepy sleuth_or_spy slightly_frowning_face slightly_smiling_face slot_machine \
        sloth small_airplane small_blue_diamond small_orange_diamond small_red_triangle \
        small_red_triangle_down smile smile_cat smiley smiley_cat smiling_face_with_3_hearts \
        smiling_imp smirk smirk_cat smoking snail snake sneezing_face snow_cloud snowflake \
        snowman snowman_without_snow sob soccer softball soon sos sound space_invader spades \
        spaghetti sparkle sparkler sparkles sparkling_heart speak_no_evil speaker \
        speech_balloon speedboat spider spider_web spock-hand sports_medal star star-struck \
        star2 star_and_crescent star_of_david stars station statue_of_liberty steam_locomotive \
        stopwatch straight_ruler strawberry stuck_out_tongue stuck_out_tongue_closed_eyes \
        stuck_out_tongue_winking_eye student sun_with_face sunflower sunglasses sunny sunrise \
        sunrise_over_mountains superhero supervillain sushi suspension_railway swan sweat \
        sweat_drops sweat_smile symbols synagogue syringe t-rex table_tennis_paddle_and_ball \
        taco tada tangerine taurus taxi tea teacher technologist teddy_bear telephone telescope \
        tennis tent test_tube the_horns thermometer thinking_face third_place_medal \
        thought_balloon thread three thumbsdown thumbsup thunder_cloud_and_rain ticket tiger \
        tiger2 timer_clock tired_face tm toilet tokyo_tower tomato tongue toolbox top tophat \
        tornado tractor traffic_light train train2 tram triangular_flag_on_post trident_emblem \
        triumph trolleybus trophy tropical_drink tropical_fish truck trumpet tshirt tulip \
        tumbler_glass turkey turtle tv twisted_rightwards_arrows two two_hearts \
        two_men_holding_hands two_women_holding_hands u5272 u5408 u55b6 u6307 u6708 u6709 u6e80 \
        u7121 u7533 u7981 u7a7a uk umbrella umbrella_on_ground umbrella_with_rain_drops \
        unamused underage unicorn_face unlock up upside_down_face us v vampire \
        vertical_traffic_light vibration_mode video_game violin virgo volcano volleyball vs \
        waffle walking waning_crescent_moon waning_gibbous_moon warning wastebasket watch \
        water_buffalo watermelon wave waving_black_flag waving_white_flag wavy_dash \
        waxing_crescent_moon waxing_gibbous_moon wc weary wedding whale whale2 wheel_of_dharma \
        wheelchair white_check_mark white_circle white_flower \
        white_frowning_face white_heart white_large_square white_medium_square \
        white_small_square white_square_button wilted_flower wind_blowing_face wind_chime \
        wine_glass wink wolf woman womens woozy_face world_map worried wrench writing_hand x \
        yarn yawning_face yellow_heart yin_yang yo-yo yum zany_face zap zebra_face zero \
        zipper_mouth_face zombie zzz \
    ";

/// A word that has been read so far, as a list of at most one word.
pub open spec fn pending_word(cur: Seq<char>) -> Seq<Seq<char>> {
    if cur.len() > 0 {
        seq![cur]
    } else {
        Seq::empty()
    }
}

/// The non-empty space-separated words of `cur + s`, where `cur` is a word
/// already begun.
pub open spec fn words_from(s: Seq<char>, cur: Seq<char>) -> Seq<Seq<char>>
    decreases s.len(),
{
    if s.len() == 0 {
        pending_word(cur)
    } else if s[0] == ' ' {
        pending_word(cur) + words_from(s.drop_first(), Seq::empty())
    } else {
        words_from(s.drop_first(), cur.push(s[0]))
    }
}

/// The words of `s`: its runs of characters between spaces, empty runs dropped.
pub open spec fn words_of(s: Seq<char>) -> Seq<Seq<char>> {
    words_from(s, Seq::empty())
}

/// The words of `s`, as separated by spaces.
fn split_words(s: &str) -> (r: Vec<String>)
    ensures
        name_texts(r@) == words_of(s@),
{
    let n = s.unicode_len();
    let mut words: Vec<String> = Vec::new();
    let mut start: usize = 0;
    let mut i: usize = 0;
    assert(s@.subrange(0, n as int) =~= s@);
    assert(s@.subrange(0, 0) =~= Seq::<char>::empty());
    assert(name_texts(words@) =~= Seq::<Seq<char>>::empty());
    assert(name_texts(words@) + words_of(s@) =~= words_of(s@));
    while i < n
        invariant
            n == s@.len(),
            start <= i <= n,
            name_texts(words@) + words_from(s@.subrange(i as int, n as int), s@.subrange(
                start as int,
                i as int,
            )) == words_of(s@),
        decreases n - i,
    {
        let ghost cur = s@.subrange(start as int, i as int);
        let ghost rest = s@.subrange(i as int, n as int);
        let ghost before = name_texts(words@);
        assert(rest[0] == s@[i as int]);
        assert(rest.drop_first() =~= s@.subrange(i + 1, n as int));
        if s.get_char(i) == ' ' {
            assert(words_from(rest, cur) == pending_word(cur) + words_from(
                s@.subrange(i + 1, n as int),
                Seq::empty(),
            ));
            if start < i {
                let w = String::from_str(s.substring_char(start, i));
                words.push(w);
                assert(name_texts(words@) =~= before.push(cur));
                assert(before.push(cur) =~= before + pending_word(cur));
            } else {
                assert(pending_word(cur) =~= Seq::<Seq<char>>::empty());
                assert(before + pending_word(cur) =~= before);
            }
            start = i + 1;
            assert(s@.subrange(start as int, i + 1) =~= Seq::<char>::empty());
            assert(name_texts(words@) + words_from(s@.subrange(i + 1, n as int), Seq::empty())
                =~= before + words_from(rest, cur));
        } else {
            assert(s@.subrange(start as int, i + 1) =~= cur.push(s@[i as int]));
        }
        i = i + 1;
    }
    let ghost cur = s@.subrange(start as int, n as int);
    let ghost before = name_texts(words@);
    assert(s@.subrange(n as int, n as int) =~= Seq::<char>::empty());
    assert(before + pending_word(cur) == words_of(s@));
    if start < n {
        let w = String::from_str(s.substring_char(start, n));
        words.push(w);
        assert(name_texts(words@) =~= before + pending_word(cur));
    } else {
        assert(before + pending_word(cur) =~= before);
    }
    words
}

/// The texts of a list of names.
pub open spec fn name_texts(names: Seq<String>) -> Seq<Seq<char>> {
    names.map_values(|s: String| s@)
}

/// A set of emoji names that may not be imported.
#[derive(Debug, Clone)]
pub struct ReservedNameSet {
    names: Vec<String>,
}

impl ReservedNameSet {
    pub closed spec fn view(&self) -> Set<Seq<char>> {
        name_texts(self.names@).to_set()
    }

    pub fn new(names: Vec<String>) -> (r: ReservedNameSet)
        ensures
            r.view() == name_texts(names@).to_set(),
    {
        ReservedNameSet { names }
    }

    /// The set of the standard emoji short codes.
    pub fn standard() -> (r: ReservedNameSet)
        ensures
            r.view() == words_of(STANDARD_SHORTCODES@).to_set(),
    {
        ReservedNameSet { names: split_words(STANDARD_SHORTCODES) }
    }

    /// Whether `name` is reserved.
    pub fn contains(&self, name: &str) -> (r: bool)
        ensures
            r == self.view().contains(name@),
    {
        let mut i: usize = 0;
        while i < self.names.len()
            invariant
                i <= self.names@.len(),
                forall|j: int| 0 <= j < i ==> (#[trigger] self.names@[j])@ != name@,
            decreases self.names@.len() - i,
        {
            if same_text(self.names[i].as_str(), name) {
                assert(name_texts(self.names@)[i as int] == name@);
                return true;
            }
            i = i + 1;
        }
        proof {
            if self.view().contains(name@) {
                let k = choose|k: int|
                    0 <= k < self.names@.len() && #[trigger] name_texts(self.names@)[k] == name@;
                assert(self.names@[k]@ == name@);
            }
        }
        false
    }
}

proof fn lemma_words_across_space(a: Seq<char>, b: Seq<char>, cur: Seq<char>)
    ensures
        words_from(a + seq![' '] + b, cur) == words_from(a, cur) + words_from(b, Seq::empty()),
    decreases a.len(),
{
    let s = a + seq![' '] + b;
    if a.len() == 0 {
        assert(s =~= seq![' '] + b);
        assert(s.drop_first() =~= b);
    } else {
        assert(s[0] == a[0]);
        assert(s.drop_first() =~= a.drop_first() + seq![' '] + b);
        if a[0] == ' ' {
            lemma_words_across_space(a.drop_first(), b, Seq::empty());
            assert(pending_word(cur) + (words_from(a.drop_first(), Seq::empty()) + words_from(
                b,
                Seq::empty(),
            )) =~= pending_word(cur) + words_from(a.drop_first(), Seq::empty()) + words_from(
                b,
                Seq::empty(),
            ));
        } else {
            lemma_words_across_space(a.drop_first(), b, cur.push(a[0]));
        }
    }
}

proof fn lemma_words_of_plain(w: Seq<char>, cur: Seq<char>)
    requires
        !w.contains(' '),
    ensures
        words_from(w, cur) == pending_word(cur + w),
    decreases w.len(),
{
    if w.len() == 0 {
        assert(cur + w =~= cur);
    } else {
        assert(w[0] != ' ');
        assert(!w.drop_first().contains(' ')) by {
            assert forall|j: int| 0 <= j < w.drop_first().len() implies w.drop_first()[j] != ' ' by {
                assert(w.drop_first()[j] == w[j + 1]);
            }
        }
        lemma_words_of_plain(w.drop_first(), cur.push(w[0]));
        assert(cur.push(w[0]) + w.drop_first() =~= cur + w);
    }
}

/// A name that stands between two spaces of the standard table is reserved
/// by the standard set.
pub proof fn lemma_listed_name_is_reserved(p: Seq<char>, w: Seq<char>, q: Seq<char>)
    requires
        w.len() > 0,
        !w.contains(' '),
        STANDARD_SHORTCODES@ == p + seq![' '] + w + seq![' '] + q,
    ensures
        words_of(STANDARD_SHORTCODES@).to_set().contains(w),
{
    lemma_words_across_space(p, w + seq![' '] + q, Seq::empty());
    assert(p + seq![' '] + w + seq![' '] + q =~= p + seq![' '] + (w + seq![' '] + q));
    lemma_words_across_space(w, q, Seq::empty());
    lemma_words_of_plain(w, Seq::empty());
    assert(Seq::<char>::empty() + w =~= w);
    let all = words_from(p, Seq::empty()) + (seq![w] + words_from(q, Seq::empty()));
    assert(all[words_from(p, Seq::empty()).len() as int] == w);
}

} // verus!
